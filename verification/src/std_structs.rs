//! The standard catalog of pre-defined structure records that travel over
//! the wire with fixed tag bytes: the temporal shapes, each a plain record
//! of 64-bit integers.

use vstd::prelude::*;
use crate::packable::{models_elems, Unpack};

pub mod date;
pub mod date_time;
pub mod date_time_zone_id;
pub mod duration;
pub mod local_date_time;
pub mod local_time;
pub mod time;

pub use date::Date;
pub use date_time::DateTime;
pub use date_time_zone_id::DateTimeZoneId;
pub use duration::Duration;
pub use local_date_time::LocalDateTime;
pub use local_time::LocalTime;
pub use time::Time;

verus! {

/// A 64-bit integer is its own model, so a sequence of integers and its
/// model sequence are the same, element by element.
pub proof fn lemma_int_models(l: Seq<i64>)
    ensures
        models_elems(l).len() == l.len(),
        forall|i: int| 0 <= i < l.len() ==> models_elems(l)[i] == l[i],
    decreases l,
{
    if l.len() == 0 {
    } else {
        lemma_int_models(l.skip(1));
        assert(models_elems(l) == seq![Unpack::model(&l[0])] + models_elems(l.skip(1)));
        assert forall|i: int| 0 <= i < l.len() implies models_elems(l)[i] == l[i] by {
            if i > 0 {
                assert(models_elems(l)[i] == models_elems(l.skip(1))[i - 1]);
                assert(l.skip(1)[i - 1] == l[i]);
            }
        }
    }
}

} // verus!
