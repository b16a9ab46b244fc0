use vstd::prelude::*;
use crate::attributes::{key_index, lemma_key_index_bounds, spec_lookup, AttributeMap, FieldSeq};

verus! {

/// Keys with this prefix are meta fields: stored, never rendered.
pub open spec fn meta_prefix() -> Seq<char> {
    seq!['l', 'o', 'g', '.']
}

/// The key whose value leads an event's text.
pub open spec fn message_key() -> Seq<char> {
    seq!['m', 'e', 's', 's', 'a', 'g', 'e']
}

pub open spec fn is_meta(k: Seq<char>) -> bool {
    k.len() >= 4 && k.subrange(0, 4) == meta_prefix()
}

/// Whether a field is listed as `key=value`: span fields unless meta; event
/// fields unless meta or the message.
pub open spec fn is_listed(k: Seq<char>, event: bool) -> bool {
    !is_meta(k) && !(event && k == message_key())
}

pub open spec fn field_text(e: (Seq<char>, Seq<char>)) -> Seq<char> {
    e.0 + seq!['='] + e.1
}

/// The listed fields of `s` as `key=value`, in order, joined by `sep`.
pub open spec fn fields_text(s: FieldSeq, sep: Seq<char>, event: bool) -> Seq<char>
    decreases s.len(),
{
    if s.len() == 0 {
        Seq::empty()
    } else {
        let prev = fields_text(s.drop_last(), sep, event);
        let e = s.last();
        if !is_listed(e.0, event) {
            prev
        } else if prev.len() == 0 {
            field_text(e)
        } else {
            prev + sep + field_text(e)
        }
    }
}

/// One span of the enclosing chain: its name, its listed attributes in
/// braces when there are any, then `": "`.
pub open spec fn segment_text(name: Seq<char>, attrs: FieldSeq) -> Seq<char> {
    let body = fields_text(attrs, seq![','], false);
    let block = if body.len() == 0 {
        Seq::empty()
    } else {
        seq!['{'] + body + seq!['}']
    };
    name + block + seq![':', ' ']
}

/// The segments of a chain of spans, root first.
pub open spec fn chain_text(chain: Seq<(Seq<char>, FieldSeq)>) -> Seq<char>
    decreases chain.len(),
{
    if chain.len() == 0 {
        Seq::empty()
    } else {
        chain_text(chain.drop_last()) + segment_text(chain.last().0, chain.last().1)
    }
}

/// An event's own text: its message followed by two spaces, if it has one,
/// then its other listed fields joined by single spaces.
pub open spec fn event_text(fields: FieldSeq) -> Seq<char> {
    let lead = match spec_lookup(fields, message_key()) {
        Some(v) => v + seq![' ', ' '],
        None => Seq::empty(),
    };
    lead + fields_text(fields, seq![' '], true)
}

/// The full line for an event inside the given chain of spans.
pub open spec fn message_text(chain: Seq<(Seq<char>, FieldSeq)>, fields: FieldSeq) -> Seq<char> {
    chain_text(chain) + event_text(fields)
}

/// Whether `s` holds the character NUL, which native text cannot carry.
pub open spec fn has_nul(s: Seq<char>) -> bool {
    exists|i: int| 0 <= i < s.len() && s[i] == '\0'
}

/// Tests `key` for the meta prefix.
pub fn is_meta_key(key: &str) -> (r: bool)
    ensures
        r == is_meta(key@),
{
    let n = key.unicode_len();
    if n < 4 {
        return false;
    }
    let ok = key.get_char(0) == 'l' && key.get_char(1) == 'o' && key.get_char(2) == 'g'
        && key.get_char(3) == '.';
    if ok {
        assert(key@.subrange(0, 4) =~= meta_prefix());
    } else {
        assert(key@.subrange(0, 4)[0] == key@[0]);
        assert(key@.subrange(0, 4)[1] == key@[1]);
        assert(key@.subrange(0, 4)[2] == key@[2]);
        assert(key@.subrange(0, 4)[3] == key@[3]);
    }
    ok
}

/// Tests whether `key` is the message key.
fn is_message_key(key: &str) -> (r: bool)
    ensures
        r == (key@ == message_key()),
{
    let n = key.unicode_len();
    if n != 7 {
        return false;
    }
    let ok = key.get_char(0) == 'm' && key.get_char(1) == 'e' && key.get_char(2) == 's'
        && key.get_char(3) == 's' && key.get_char(4) == 'a' && key.get_char(5) == 'g'
        && key.get_char(6) == 'e';
    if ok {
        assert(key@ =~= message_key());
    }
    ok
}

/// Tests `s` for the character NUL.
pub fn contains_nul(s: &str) -> (r: bool)
    ensures
        r == has_nul(s@),
{
    let n = s.unicode_len();
    let mut i: usize = 0;
    while i < n
        invariant
            n == s@.len(),
            i <= n,
            forall|j: int| 0 <= j < i ==> s@[j] != '\0',
        decreases n - i,
    {
        if s.get_char(i) == '\0' {
            return true;
        }
        i = i + 1;
    }
    false
}

/// `s` without its meta fields.
pub open spec fn strip_meta(s: FieldSeq) -> FieldSeq
    decreases s.len(),
{
    if s.len() == 0 {
        s
    } else if is_meta(s.last().0) {
        strip_meta(s.drop_last())
    } else {
        strip_meta(s.drop_last()).push(s.last())
    }
}

/// A chain whose spans lost their meta fields.
pub open spec fn strip_chain(chain: Seq<(Seq<char>, FieldSeq)>) -> Seq<(Seq<char>, FieldSeq)> {
    chain.map_values(|c: (Seq<char>, FieldSeq)| (c.0, strip_meta(c.1)))
}

proof fn lemma_fields_text_strip(s: FieldSeq, sep: Seq<char>, event: bool)
    ensures
        fields_text(strip_meta(s), sep, event) == fields_text(s, sep, event),
    decreases s.len(),
{
    if s.len() > 0 {
        lemma_fields_text_strip(s.drop_last(), sep, event);
        if !is_meta(s.last().0) {
            assert(strip_meta(s).drop_last() =~= strip_meta(s.drop_last()));
        }
    }
}

proof fn lemma_lookup_strip(s: FieldSeq, k: Seq<char>)
    requires
        !is_meta(k),
    ensures
        spec_lookup(strip_meta(s), k) == spec_lookup(s, k),
    decreases s.len(),
{
    if s.len() > 0 {
        lemma_lookup_strip(s.drop_last(), k);
        let p = strip_meta(s.drop_last());
        lemma_key_index_bounds(s.drop_last(), k);
        lemma_key_index_bounds(p, k);
        if !is_meta(s.last().0) {
            assert(strip_meta(s).drop_last() =~= p);
            let i = key_index(p, k);
            if i >= 0 {
                assert(strip_meta(s)[i] == p[i]);
            }
        }
        let j = key_index(s.drop_last(), k);
        if j >= 0 {
            assert(s[j] == s.drop_last()[j]);
        }
    }
}

proof fn lemma_chain_text_strip(chain: Seq<(Seq<char>, FieldSeq)>)
    ensures
        chain_text(strip_chain(chain)) == chain_text(chain),
    decreases chain.len(),
{
    if chain.len() > 0 {
        lemma_chain_text_strip(chain.drop_last());
        assert(strip_chain(chain).drop_last() =~= strip_chain(chain.drop_last()));
        lemma_fields_text_strip(chain.last().1, seq![','], false);
    }
}

/// Meta fields never reach the rendered text: dropping them, from the spans
/// and from the event, leaves the line unchanged.
pub proof fn lemma_meta_fields_not_rendered(chain: Seq<(Seq<char>, FieldSeq)>, fields: FieldSeq)
    ensures
        message_text(strip_chain(chain), strip_meta(fields)) == message_text(chain, fields),
{
    lemma_chain_text_strip(chain);
    lemma_fields_text_strip(fields, seq![' '], true);
    assert(!is_meta(message_key()));
    lemma_lookup_strip(fields, message_key());
}

/// Appends the listed fields of `attrs` to `out`, joined by `sep`.
fn push_fields(out: &mut String, attrs: &AttributeMap, sep: &str, event: bool) -> (any: bool)
    ensures
        final(out)@ == old(out)@ + fields_text(attrs@, sep@, event),
        any == (fields_text(attrs@, sep@, event).len() > 0),
{
    let ghost start = out@;
    let mut any = false;
    let mut i: usize = 0;
    while i < attrs.len()
        invariant
            i <= attrs@.len(),
            out@ == start + fields_text(attrs@.take(i as int), sep@, event),
            any == (fields_text(attrs@.take(i as int), sep@, event).len() > 0),
        decreases attrs@.len() - i,
    {
        assert(attrs@.take(i + 1).drop_last() =~= attrs@.take(i as int));
        assert(attrs@.take(i + 1).last() == attrs@[i as int]);
        let k = attrs.key(i);
        let listed = !is_meta_key(k.as_str()) && !(event && is_message_key(k.as_str()));
        let ghost prev = fields_text(attrs@.take(i as int), sep@, event);
        assert(fields_text(attrs@.take(i + 1), sep@, event) == if !is_listed(attrs@[i as int].0, event) {
            prev
        } else if prev.len() == 0 {
            field_text(attrs@[i as int])
        } else {
            prev + sep@ + field_text(attrs@[i as int])
        });
        assert(listed == is_listed(attrs@[i as int].0, event));
        if listed {
            if any {
                out.append(sep);
            }
            let ghost mid = out@;
            proof {
                reveal_strlit("=");
                assert("="@ =~= seq!['=']);
            }
            out.append(k.as_str());
            out.append("=");
            out.append(attrs.value(i).as_str());
            assert(out@ =~= mid + field_text(attrs@[i as int]));
            any = true;
            assert(out@ =~= start + fields_text(attrs@.take(i + 1), sep@, event));
        }
        i = i + 1;
    }
    assert(attrs@.take(i as int) =~= attrs@);
    any
}

/// Appends the segment of one span, named `name`, to `out`.
pub fn push_segment(out: &mut String, name: &str, attrs: &AttributeMap)
    ensures
        final(out)@ == old(out)@ + segment_text(name@, attrs@),
{
    proof {
        reveal_strlit("{");
        reveal_strlit("}");
        reveal_strlit(",");
        reveal_strlit(": ");
        assert("{"@ =~= seq!['{']);
        assert("}"@ =~= seq!['}']);
        assert(","@ =~= seq![',']);
        assert(": "@ =~= seq![':', ' ']);
    }
    out.append(name);
    let mut body = String::new();
    let any = push_fields(&mut body, attrs, ",", false);
    if any {
        out.append("{");
        out.append(body.as_str());
        out.append("}");
    }
    out.append(": ");
    assert(out@ =~= old(out)@ + segment_text(name@, attrs@));
}

/// Appends the event's own text to `out`.
pub fn push_event(out: &mut String, fields: &AttributeMap)
    ensures
        final(out)@ == old(out)@ + event_text(fields@),
{
    proof {
        reveal_strlit("message");
        reveal_strlit("  ");
        reveal_strlit(" ");
        assert("  "@ =~= seq![' ', ' ']);
        assert(" "@ =~= seq![' ']);
    }
    let key = String::from_str("message");
    assert(key@ =~= message_key());
    match fields.get(&key) {
        Some(v) => {
            out.append(v.as_str());
            out.append("  ");
        },
        None => {},
    }
    push_fields(out, fields, " ", true);
    assert(out@ =~= old(out)@ + event_text(fields@));
}

} // verus!
