//! JSON that is recorded about builds.

use crate::crypto;
use vstd::prelude::*;

verus! {

/// Outputs as JSON objects with a name and a path, one after the other.
pub open spec fn outputs_json(outputs: Seq<(String, String)>) -> Seq<char>
    decreases outputs.len(),
{
    if outputs.len() == 0 {
        Seq::empty()
    } else {
        let before = if outputs.len() > 1 {
            outputs_json(outputs.drop_last()) + ","@
        } else {
            Seq::empty()
        };
        before + "{\"name\":"@ + crypto::json_string(outputs.last().0@) + ",\"path\":"@
            + crypto::json_string(outputs.last().1@) + "}"@
    }
}

pub fn outputs_text(outputs: &Vec<(String, String)>) -> (written: String)
    ensures
        written@ == outputs_json(outputs@),
{
    let mut written = String::new();
    let mut i: usize = 0;
    assert(outputs@.take(0) =~= Seq::<(String, String)>::empty());
    assert(written@ =~= outputs_json(outputs@.take(0)));
    while i < outputs.len()
        invariant
            i <= outputs@.len(),
            written@ == outputs_json(outputs@.take(i as int)),
        decreases outputs@.len() - i,
    {
        let ghost next = outputs@.take(i + 1);
        assert(next.drop_last() =~= outputs@.take(i as int));
        assert(next.last() == outputs@[i as int]);
        if i > 0 {
            written.append(",");
        } else {
            assert(outputs@.take(0) =~= Seq::<(String, String)>::empty());
        }
        written.append("{\"name\":");
        written.append(crypto::json_string_text(outputs[i].0.as_str()).as_str());
        written.append(",\"path\":");
        written.append(crypto::json_string_text(outputs[i].1.as_str()).as_str());
        written.append("}");
        assert(written@ =~= outputs_json(next));
        i += 1;
    }
    assert(outputs@.take(outputs@.len() as int) =~= outputs@);
    written
}

} // verus!
