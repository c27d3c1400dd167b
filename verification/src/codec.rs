//! A structured text encoding of [`MessageResource`]: a record with a
//! nullable `key` field and a `message` field, written as a JSON object,
//! together with a decoder that inverts it.
//!
//! The key field is always emitted, `null` standing for an absent key.
//! Inside quoted strings the quote and the backslash are escaped with a
//! backslash; every other character stands for itself.

use vstd::prelude::*;
use crate::message::MessageResource;
use crate::text::{lit_at, match_at, push_char};

verus! {

/// How one character is written inside a quoted string.
pub open spec fn esc_char(c: char) -> Seq<char> {
    if c == '"' || c == '\\' {
        seq!['\\', c]
    } else {
        seq![c]
    }
}

/// How a string is written inside quotes: each character in turn, the
/// quote and the backslash escaped.
pub open spec fn esc(t: Seq<char>) -> Seq<char>
    decreases t.len(),
{
    if t.len() == 0 {
        Seq::empty()
    } else {
        esc(t.drop_last()) + esc_char(t.last())
    }
}

/// Escaping a non-empty string starts with its first character escaped.
pub proof fn lemma_esc_first(t: Seq<char>)
    requires
        t.len() > 0,
    ensures
        esc(t) == esc_char(t[0]) + esc(t.drop_first()),
    decreases t.len(),
{
    if t.len() == 1 {
        assert(t.drop_last() =~= Seq::<char>::empty());
        assert(t.drop_first() =~= Seq::<char>::empty());
        assert(esc(t) =~= esc_char(t[0]) + esc(t.drop_first()));
    } else {
        let u = t.drop_last();
        lemma_esc_first(u);
        assert(t.drop_first().drop_last() =~= u.drop_first());
        assert(t.drop_first().last() == t.last());
        assert(esc(t) =~= esc_char(t[0]) + esc(t.drop_first()));
    }
}

/// How the key field's value is written: a quoted escaped string, or
/// `null` for an absent key.
pub open spec fn key_part(k: Option<Seq<char>>) -> Seq<char> {
    match k {
        Some(s) => "\""@ + esc(s) + "\""@,
        None => "null"@,
    }
}

/// The full encoded record for a key and a message text.
pub open spec fn encode_spec(k: Option<Seq<char>>, t: Seq<char>) -> Seq<char> {
    "{\"key\":"@ + key_part(k) + ",\"message\":\""@ + esc(t) + "\"}"@
}

fn append_escaped(out: &mut String, t: &str)
    ensures
        final(out)@ == old(out)@ + esc(t@),
{
    let n = t.unicode_len();
    let mut i: usize = 0;
    while i < n
        invariant
            n == t@.len(),
            i <= n,
            out@ == old(out)@ + esc(t@.subrange(0, i as int)),
        decreases n - i,
    {
        let c = t.get_char(i);
        if c == '"' || c == '\\' {
            push_char(out, '\\');
            push_char(out, c);
        } else {
            push_char(out, c);
        }
        proof {
            assert(t@.subrange(0, i as int + 1).drop_last() =~= t@.subrange(0, i as int));
            assert(out@ =~= old(out)@ + esc(t@.subrange(0, i as int + 1)));
        }
        i += 1;
    }
    proof {
        assert(t@.subrange(0, n as int) =~= t@);
    }
}

/// Reads a quoted string's content from position `i` up to and over its
/// closing quote: the content with escapes undone, and the position just
/// after the closing quote.
pub open spec fn parse_content(s: Seq<char>, i: int) -> Option<(Seq<char>, int)>
    decreases s.len() - i,
{
    if i < 0 || i >= s.len() {
        None
    } else if s[i] == '"' {
        Some((Seq::empty(), i + 1))
    } else if s[i] == '\\' {
        if i + 1 < s.len() && (s[i + 1] == '"' || s[i + 1] == '\\') {
            match parse_content(s, i + 2) {
                Some(p) => Some((seq![s[i + 1]] + p.0, p.1)),
                None => None,
            }
        } else {
            None
        }
    } else {
        match parse_content(s, i + 1) {
            Some(p) => Some((seq![s[i]] + p.0, p.1)),
            None => None,
        }
    }
}

/// Reading escaped content followed by a closing quote yields the
/// original string back: escaping and reading are inverse.
pub proof fn lemma_parse_esc(s: Seq<char>, i: int, t: Seq<char>)
    requires
        0 <= i,
        i + esc(t).len() + 1 <= s.len(),
        s.subrange(i, i + esc(t).len() + 1) == esc(t) + seq!['"'],
    ensures
        parse_content(s, i) == Some((t, i + esc(t).len() + 1)),
    decreases t.len(),
{
    let whole = esc(t) + seq!['"'];
    assert forall|x: int| 0 <= x < whole.len() implies s[i + x] == #[trigger] whole[x] by {
        assert(s.subrange(i, i + esc(t).len() + 1)[x] == whole[x]);
    }
    if t.len() == 0 {
        assert(whole[0] == '"');
        assert(s[i + 0] == whole[0]);
    } else {
        lemma_esc_first(t);
        let c = t[0];
        let rest = t.drop_first();
        let tail = esc(rest) + seq!['"'];
        if c == '"' || c == '\\' {
            assert(whole[0] == '\\');
            assert(s[i + 0] == whole[0]);
            assert(whole[1] == c);
            assert(s[i + 1] == whole[1]);
            assert forall|x: int| 0 <= x < tail.len() implies s[i + 2 + x] == #[trigger] tail[x] by {
                assert(whole[2 + x] == tail[x]);
                assert(s[i + (2 + x)] == whole[2 + x]);
            }
            assert(s.subrange(i + 2, i + 2 + esc(rest).len() + 1) =~= tail);
            lemma_parse_esc(s, i + 2, rest);
            assert(seq![s[i + 1]] + rest =~= t);
        } else {
            assert(whole[0] == c);
            assert(s[i + 0] == whole[0]);
            assert forall|x: int| 0 <= x < tail.len() implies s[i + 1 + x] == #[trigger] tail[x] by {
                assert(whole[1 + x] == tail[x]);
                assert(s[i + (1 + x)] == whole[1 + x]);
            }
            assert(s.subrange(i + 1, i + 1 + esc(rest).len() + 1) =~= tail);
            lemma_parse_esc(s, i + 1, rest);
            assert(seq![s[i]] + rest =~= t);
        }
    }
}

fn parse_content_exec(s: &str, i: usize) -> (r: Option<(String, usize)>)
    ensures
        match parse_content(s@, i as int) {
            Some(p) => r matches Some(q) && q.0@ == p.0 && q.1 as int == p.1,
            None => r is None,
        },
    decreases s@.len() - i,
{
    let n = s.unicode_len();
    if i >= n {
        return None;
    }
    let c = s.get_char(i);
    if c == '"' {
        Some((String::new(), i + 1))
    } else if c == '\\' {
        if i + 1 < n {
            let c2 = s.get_char(i + 1);
            if c2 == '"' || c2 == '\\' {
                match parse_content_exec(s, i + 2) {
                    Some(q) => {
                        let mut out = String::new();
                        push_char(&mut out, c2);
                        out.append(q.0.as_str());
                        proof {
                            assert(out@ =~= seq![s@[i as int + 1]] + q.0@);
                        }
                        Some((out, q.1))
                    },
                    None => None,
                }
            } else {
                None
            }
        } else {
            None
        }
    } else {
        match parse_content_exec(s, i + 1) {
            Some(q) => {
                let mut out = String::new();
                push_char(&mut out, c);
                out.append(q.0.as_str());
                proof {
                    assert(out@ =~= seq![s@[i as int]] + q.0@);
                }
                Some((out, q.1))
            },
            None => None,
        }
    }
}

/// Reads the key field's value from position `i`: `null`, or a quoted
/// string; gives the key and the position just after it.
pub open spec fn parse_key(s: Seq<char>, i: int) -> Option<(Option<Seq<char>>, int)> {
    if lit_at(s, i, "null"@) {
        Some((None, i + "null"@.len()))
    } else if 0 <= i < s.len() && s[i] == '"' {
        match parse_content(s, i + 1) {
            Some(p) => Some((Some(p.0), p.1)),
            None => None,
        }
    } else {
        None
    }
}

/// Reads a whole encoded record: the key and the message text, or nothing
/// where the text is not such a record.
pub open spec fn decode_spec(s: Seq<char>) -> Option<(Option<Seq<char>>, Seq<char>)> {
    if !lit_at(s, 0, "{\"key\":"@) {
        None
    } else {
        match parse_key(s, "{\"key\":"@.len() as int) {
            None => None,
            Some(kp) => {
                if !lit_at(s, kp.1, ",\"message\":\""@) {
                    None
                } else {
                    match parse_content(s, kp.1 + ",\"message\":\""@.len()) {
                        None => None,
                        Some(tp) => {
                            if tp.1 < s.len() && s[tp.1] == '}' && tp.1 + 1 == s.len() {
                                Some((kp.0, tp.0))
                            } else {
                                None
                            }
                        },
                    }
                }
            },
        }
    }
}

/// What the reader accepts is exactly escaped content with its closing
/// quote: the converse of [`lemma_parse_esc`].
pub proof fn lemma_parse_sound(s: Seq<char>, i: int, t: Seq<char>, j: int)
    requires
        parse_content(s, i) == Some((t, j)),
    ensures
        0 <= i < j <= s.len(),
        j == i + esc(t).len() + 1,
        s.subrange(i, j) == esc(t) + seq!['"'],
    decreases s.len() - i,
{
    if s[i] == '"' {
        assert(s.subrange(i, j) =~= esc(t) + seq!['"']);
    } else if s[i] == '\\' {
        let p = parse_content(s, i + 2)->Some_0;
        lemma_parse_sound(s, i + 2, p.0, p.1);
        lemma_esc_first(t);
        assert(t.drop_first() =~= p.0);
        assert(s.subrange(i, j) =~= seq![s[i], s[i + 1]] + s.subrange(i + 2, j));
        assert(s.subrange(i, j) =~= esc(t) + seq!['"']);
    } else {
        let p = parse_content(s, i + 1)->Some_0;
        lemma_parse_sound(s, i + 1, p.0, p.1);
        lemma_esc_first(t);
        assert(t.drop_first() =~= p.0);
        assert(s.subrange(i, j) =~= seq![s[i]] + s.subrange(i + 1, j));
        assert(s.subrange(i, j) =~= esc(t) + seq!['"']);
    }
}

/// Law: the decoder accepts nothing but encodings; whatever it reads a
/// key and message out of was exactly their encoding.
pub proof fn lemma_decode_sound(s: Seq<char>, k: Option<Seq<char>>, t: Seq<char>)
    requires
        decode_spec(s) == Some((k, t)),
    ensures
        s == encode_spec(k, t),
{
    reveal_strlit("\"");
    reveal_strlit("\"}");
    let p1 = "{\"key\":"@;
    let p2 = ",\"message\":\""@;
    let i = p1.len() as int;
    let kp = parse_key(s, i)->Some_0;
    let j = kp.1;
    if lit_at(s, i, "null"@) {
        assert(s.subrange(i, j) == key_part(k));
    } else {
        let q = parse_content(s, i + 1)->Some_0;
        lemma_parse_sound(s, i + 1, q.0, q.1);
        assert(s.subrange(i, j) =~= seq![s[i]] + s.subrange(i + 1, j));
        assert(s.subrange(i, j) =~= key_part(k));
    }
    let j2 = j + p2.len();
    let tp = parse_content(s, j2)->Some_0;
    lemma_parse_sound(s, j2, t, tp.1);
    let j3 = tp.1;
    assert(s.subrange(j2, j3) + seq![s[j3]] =~= esc(t) + "\"}"@);
    assert(s =~= s.subrange(0, i) + s.subrange(i, j) + s.subrange(j, j2) + (s.subrange(j2, j3)
        + seq![s[j3]]));
    assert(s =~= encode_spec(k, t));
}

/// A literal stands where it was concatenated.
proof fn lemma_lit_at(pre: Seq<char>, lit: Seq<char>, post: Seq<char>)
    ensures
        lit_at(pre + lit + post, pre.len() as int, lit),
{
    assert((pre + lit + post).subrange(pre.len() as int, pre.len() + lit.len() as int) =~= lit);
}

/// Law: decoding the encoding of any key and message yields them back;
/// the structured encoding round-trips.
pub proof fn lemma_codec_round_trip(k: Option<Seq<char>>, t: Seq<char>)
    ensures
        decode_spec(encode_spec(k, t)) == Some((k, t)),
{
    reveal_strlit("\"");
    reveal_strlit("\"}");
    reveal_strlit("null");
    let s = encode_spec(k, t);
    let p1 = "{\"key\":"@;
    let p2 = ",\"message\":\""@;
    let end = "\"}"@;
    let kp = key_part(k);
    assert(s =~= Seq::empty() + p1 + (kp + p2 + esc(t) + end));
    lemma_lit_at(Seq::empty(), p1, kp + p2 + esc(t) + end);
    assert(lit_at(s, 0, p1));
    let i = p1.len() as int;
    match k {
        None => {
            assert(s =~= p1 + "null"@ + (p2 + esc(t) + end));
            lemma_lit_at(p1, "null"@, p2 + esc(t) + end);
            assert(parse_key(s, i) == Some((None::<Seq<char>>, i + 4)));
        },
        Some(ks) => {
            assert(kp =~= seq!['"'] + esc(ks) + seq!['"']);
            assert(s[i] == kp[0]);
            assert(s[i] == '"');
            assert(!lit_at(s, i, "null"@)) by {
                if lit_at(s, i, "null"@) {
                    assert(s.subrange(i, i + 4)[0] == 'n');
                }
            }
            let li = esc(ks).len();
            assert(s.subrange(i + 1, i + 1 + li + 1) =~= esc(ks) + seq!['"']) by {
                assert forall|x: int| 0 <= x < li + 1 implies s[i + 1 + x] == #[trigger] (esc(ks)
                    + seq!['"'])[x] by {
                    assert(s[i + 1 + x] == kp[1 + x]);
                }
            }
            lemma_parse_esc(s, i + 1, ks);
            assert(parse_key(s, i) == Some((Some(ks), i + kp.len())));
        },
    }
    let j = i + kp.len();
    assert(s =~= (p1 + kp) + p2 + (esc(t) + end));
    lemma_lit_at(p1 + kp, p2, esc(t) + end);
    assert(lit_at(s, j, p2));
    let j2 = j + p2.len();
    let lt = esc(t).len();
    assert(s.subrange(j2, j2 + lt + 1) =~= esc(t) + seq!['"']) by {
        assert forall|x: int| 0 <= x < lt + 1 implies s[j2 + x] == #[trigger] (esc(t)
            + seq!['"'])[x] by {
            if x < lt {
                assert(s[j2 + x] == esc(t)[x]);
            } else {
                assert(s[j2 + x] == end[0]);
            }
        }
    }
    lemma_parse_esc(s, j2, t);
    let j3 = j2 + lt + 1;
    assert(s[j3] == end[1]);
    assert(s[j3] == '}');
    assert(j3 + 1 == s.len());
}

impl MessageResource {
    /// Encodes the message as the record [`encode_spec`] describes.
    pub fn encode(&self) -> (r: String)
        ensures
            r@ == encode_spec(self.key_view(), self.message@),
    {
        let mut r = String::from_str("{\"key\":");
        match &self.key {
            Some(k) => {
                r.append("\"");
                append_escaped(&mut r, k.as_str());
                r.append("\"");
            },
            None => {
                r.append("null");
            },
        }
        r.append(",\"message\":\"");
        append_escaped(&mut r, self.message.as_str());
        r.append("\"}");
        proof {
            assert(r@ =~= encode_spec(self.key_view(), self.message@));
        }
        r
    }

    /// Decodes a record written as [`encode_spec`] describes; yields
    /// nothing where the text is not such a record, exactly as
    /// [`decode_spec`] says.
    pub fn decode(s: &str) -> (r: Option<MessageResource>)
        ensures
            match decode_spec(s@) {
                Some(p) => r matches Some(m) && m.key_view() == p.0 && m.message@ == p.1,
                None => r is None,
            },
    {
        let n = s.unicode_len();
        if !match_at(s, 0, "{\"key\":") {
            return None;
        }
        let i = "{\"key\":".unicode_len();
        let key: Option<String>;
        let j: usize;
        if match_at(s, i, "null") {
            key = None;
            j = i + "null".unicode_len();
        } else if i < n && s.get_char(i) == '"' {
            match parse_content_exec(s, i + 1) {
                Some(q) => {
                    key = Some(q.0);
                    j = q.1;
                },
                None => {
                    return None;
                },
            }
        } else {
            return None;
        }
        if !match_at(s, j, ",\"message\":\"") {
            return None;
        }
        let j2 = j + ",\"message\":\"".unicode_len();
        match parse_content_exec(s, j2) {
            Some(q) => {
                if q.1 < n && s.get_char(q.1) == '}' && q.1 + 1 == n {
                    Some(MessageResource { key, message: q.0 })
                } else {
                    None
                }
            },
            None => None,
        }
    }
}

} // verus!
