//! The text of span fields and event fields.
use vstd::prelude::*;
use crate::text::{chars_of, push_str};

verus! {

/// The views of a list of name and value pairs.
pub open spec fn kv_views(v: Seq<(String, String)>) -> Seq<(Seq<char>, Seq<char>)> {
    v.map_values(|p: (String, String)| (p.0@, p.1@))
}

/// A field as written in a list of fields: `name=value`, where a field
/// named `message` shows its value alone.
pub open spec fn first_kv_text(k: Seq<char>, v: Seq<char>) -> Seq<char> {
    if k == "message"@ {
        v
    } else {
        k + "="@ + v
    }
}

/// The fields after the first one, each after a comma and a blank.
pub open spec fn rest_kvs_text(kvs: Seq<(Seq<char>, Seq<char>)>) -> Seq<char>
    decreases kvs.len(),
{
    if kvs.len() == 0 {
        Seq::empty()
    } else {
        ", "@ + first_kv_text(kvs[0].0, kvs[0].1) + rest_kvs_text(kvs.drop_first())
    }
}

/// The fields of a span, separated by commas.
pub open spec fn kvs_text(kvs: Seq<(Seq<char>, Seq<char>)>) -> Seq<char> {
    if kvs.len() == 0 {
        Seq::empty()
    } else {
        first_kv_text(kvs[0].0, kvs[0].1) + rest_kvs_text(kvs.drop_first())
    }
}

/// Fields whose names start with `log.` carry metadata of records bridged
/// from the `log` crate, which is shown elsewhere.
pub open spec fn is_log_field(name: Seq<char>) -> bool {
    name.len() >= 4 && name.take(4) == "log."@
}

/// The fields of an event, each after a blank and separated by commas;
/// the field named `message` shows its value alone.
pub open spec fn fields_text(fs: Seq<(Seq<char>, Seq<char>)>, comma: bool) -> Seq<char>
    decreases fs.len(),
{
    if fs.len() == 0 {
        Seq::empty()
    } else if is_log_field(fs[0].0) {
        fields_text(fs.drop_first(), comma)
    } else {
        (if comma {
            ","@
        } else {
            Seq::empty()
        }) + " "@ + first_kv_text(fs[0].0, fs[0].1) + fields_text(fs.drop_first(), true)
    }
}

/// Whether two strings hold the same characters.
pub fn same_text(a: &str, b: &str) -> (r: bool)
    ensures
        r == (a@ == b@),
{
    let x = chars_of(a);
    let y = chars_of(b);
    if x.len() != y.len() {
        return false;
    }
    let mut i: usize = 0;
    while i < x.len()
        invariant
            x@ == a@,
            y@ == b@,
            x.len() == y.len(),
            i <= x.len(),
            forall|j: int| 0 <= j < i ==> x@[j] == y@[j],
        decreases x.len() - i,
    {
        if x[i] != y[i] {
            return false;
        }
        i = i + 1;
    }
    proof {
        assert(x@ =~= y@);
    }
    true
}

/// Whether `name` starts with `log.`.
pub fn log_field(name: &str) -> (r: bool)
    ensures
        r == is_log_field(name@),
{
    let x = chars_of(name);
    let p = chars_of("log.");
    proof {
        reveal_strlit("log.");
    }
    if x.len() < 4 {
        return false;
    }
    let mut i: usize = 0;
    while i < 4
        invariant
            x@ == name@,
            p@ == "log."@,
            p@.len() == 4,
            x.len() >= 4,
            i <= 4,
            forall|j: int| 0 <= j < i ==> x@[j] == p@[j],
        decreases 4 - i,
    {
        if x[i] != p[i] {
            proof {
                assert(x@.take(4)[i as int] != p@[i as int]);
            }
            return false;
        }
        i = i + 1;
    }
    proof {
        assert(x@.take(4) =~= p@);
    }
    true
}

fn push_first_kv(buf: &mut String, k: &String, v: &String)
    ensures
        final(buf)@ == old(buf)@ + first_kv_text(k@, v@),
{
    if same_text(k.as_str(), "message") {
        push_str(buf, v.as_str());
    } else {
        push_str(buf, k.as_str());
        push_str(buf, "=");
        push_str(buf, v.as_str());
    }
}

/// Appends the fields of a span.
pub fn push_kvs(buf: &mut String, kvs: &Vec<(String, String)>)
    ensures
        final(buf)@ == old(buf)@ + kvs_text(kv_views(kvs@)),
{
    let ghost all = kv_views(kvs@);
    if kvs.len() == 0 {
        return;
    }
    push_first_kv(buf, &kvs[0].0, &kvs[0].1);
    let mut i: usize = 1;
    proof {
        assert(all.drop_first() =~= all.skip(1));
    }
    while i < kvs.len()
        invariant
            1 <= i <= kvs.len(),
            all == kv_views(kvs@),
            old(buf)@ + kvs_text(all) == buf@ + rest_kvs_text(all.skip(i as int)),
        decreases kvs.len() - i,
    {
        proof {
            assert(all.skip(i as int).drop_first() =~= all.skip(i + 1));
        }
        push_str(buf, ", ");
        push_first_kv(buf, &kvs[i].0, &kvs[i].1);
        i = i + 1;
    }
    proof {
        assert(all.skip(i as int) =~= Seq::empty());
    }
}

/// Appends the fields of an event.
pub fn push_fields(buf: &mut String, fs: &Vec<(String, String)>)
    ensures
        final(buf)@ == old(buf)@ + fields_text(kv_views(fs@), false),
{
    let ghost all = kv_views(fs@);
    let mut comma = false;
    let mut i: usize = 0;
    proof {
        assert(all.skip(0) =~= all);
    }
    while i < fs.len()
        invariant
            i <= fs.len(),
            all == kv_views(fs@),
            old(buf)@ + fields_text(all, false) == buf@ + fields_text(all.skip(i as int), comma),
        decreases fs.len() - i,
    {
        proof {
            assert(all.skip(i as int).drop_first() =~= all.skip(i + 1));
        }
        let name = fs[i].0.as_str();
        if !log_field(name) {
            if comma {
                push_str(buf, ",");
            }
            push_str(buf, " ");
            push_first_kv(buf, &fs[i].0, &fs[i].1);
            comma = true;
        }
        i = i + 1;
    }
    proof {
        assert(all.skip(i as int) =~= Seq::empty());
    }
}

} // verus!
