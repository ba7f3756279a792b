//! Reads a PipeWire object dump, finds the default audio sink's volume
//! state, and computes the command or status text for a volume request.
use crate::command::{dispatch, dispatched, target_wf, Action, Request};
use crate::json::{json_of, parse_json, Json};
use crate::model::{decode_dump, dump_decodes, DumpObject};
use crate::resolve::{resolution, resolve, resolved_as, Resolution, Target};
use vstd::prelude::*;

pub mod fixed;
pub mod text;
pub mod json;
pub mod model;
pub mod resolve;
pub mod volume;
pub mod command;
pub mod laws;

verus! {

/// Why a request could not be carried out.
#[derive(Debug)]
pub enum Failure {
    /// The dump is not a JSON array.
    MalformedInput,
    Resolve(resolve::ResolveError),
    /// The delta is not a percentage such as `+1%`.
    InvalidDeltaFormat,
}

/// Whether resolution found a target.
pub open spec fn found(res: Resolution) -> bool {
    res is Route || res is Node
}

/// What `run_objects` gives for a request on a decoded dump: the
/// resolution's failure, or the request carried out on what it found.
pub open spec fn run_outcome(objs: Seq<DumpObject>, req: Request, r: Result<Action, Failure>) -> bool {
    let res = resolution(objs);
    if found(res) {
        exists|t: Target| resolved_as(objs, res, Ok(t)) && #[trigger] dispatched(t, req, r)
    } else {
        r matches Err(Failure::Resolve(e)) && resolved_as(objs, res, Err(e))
    }
}

/// Finds the default sink in a decoded dump and carries out `req` on it.
pub fn run_objects(objs: &Vec<DumpObject>, req: Request) -> (r: Result<Action, Failure>)
    ensures
        run_outcome(objs@, req, r),
{
    match resolve(objs) {
        Err(e) => Err(Failure::Resolve(e)),
        Ok(t) => {
            proof {
                assert(target_wf(t));
            }
            let ghost g = req;
            let r = dispatch(&t, req);
            assert(resolved_as(objs@, resolution(objs@), Ok(t)) && dispatched(t, g, r));
            r
        },
    }
}

/// Carries out `req` on a dump already read as JSON: an array of objects
/// gives the outcome on its decoded entries; any other value gives
/// `MalformedInput`.
pub fn run_json(j: Json, req: Request) -> (r: Result<Action, Failure>)
    ensures
        j matches Json::Array(items) ==> exists|objs: Seq<DumpObject>|
            #[trigger] dump_decodes(items@, objs) && run_outcome(objs, req, r),
        !(j is Array) ==> r matches Err(Failure::MalformedInput),
{
    let ghost jj = j;
    let objs = match decode_dump(j) {
        Some(objs) => objs,
        None => return Err(Failure::MalformedInput),
    };
    let ghost g = req;
    let r = run_objects(&objs, req);
    assert(dump_decodes(jj->Array_0@, objs@) && run_outcome(objs@, g, r));
    r
}

/// Reads a dump (a JSON array of objects), finds the default sink, and
/// carries out `req` on it. Bytes that hold no JSON array give
/// `MalformedInput`.
pub fn run(dump: &[u8], req: Request) -> (r: Result<Action, Failure>)
    ensures
        json_of(dump@) matches Some(Json::Array(items)) ==> exists|objs: Seq<DumpObject>|
            #[trigger] dump_decodes(items@, objs) && run_outcome(objs, req, r),
        !(json_of(dump@) matches Some(Json::Array(_))) ==> r matches Err(Failure::MalformedInput),
{
    match parse_json(dump) {
        Some(j) => run_json(j, req),
        None => Err(Failure::MalformedInput),
    }
}

} // verus!
