use vstd::prelude::*;

pub mod block;
pub mod delta;
pub mod error;
pub mod features;
pub mod laws;
pub mod objects;
pub mod par;
pub mod reader;
pub mod resolve;
pub mod segment;

pub use error::Error;
pub use objects::{Node, OsmId, OsmObj, Relation, Way};
pub use reader::OsmPbfReader;

use reader::{first_bad, segment_error};
use resolve::{is_closure, pred_ok};

verus! {

/// The objects that `pred` selects and everything they depend on; see
/// `OsmPbfReader::get_objs_and_deps`.
pub fn get_objs_and_deps<F: Fn(&OsmObj) -> bool>(reader: &mut OsmPbfReader, pred: F) -> (r: Result<
    Vec<OsmObj>,
    Error,
>)
    requires
        pred_ok(pred),
    ensures
        final(reader).segments == old(reader).segments,
        r is Ok <==> old(reader).file_ok(),
        r matches Err(e) ==> exists|s: int|
            first_bad(old(reader).segments@, s) && e == segment_error(#[trigger] old(reader).segments@[s]),
        r matches Ok(v) ==> is_closure(pred, v@, old(reader).file_objs()),
{
    reader.get_objs_and_deps(pred)
}

} // verus!
