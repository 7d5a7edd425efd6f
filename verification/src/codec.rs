//! Wire codec for control events.
//!
//! The wire form is one compact, tagged record per transaction:
//!
//! - `{"type":"mainToggle"}`
//! - `{"type":"openModal"}`
//! - `{"type":"chat","message":"<text>"}`
//!
//! Inside the message text the characters `"` and `\` are escaped with a
//! backslash, and the control characters newline, carriage return and tab are
//! written `\n`, `\r`, `\t`. Decoding rejects a document that does not have
//! this shape with `MalformedPayload`, and a document whose tag is well formed
//! but names no known variant with `UnknownVariant`.
use vstd::prelude::*;

use crate::event::{DecodeError, EventModel, IPCEvent};

verus! {

/// The opening of every document, up to and including the quote that starts
/// the tag: `{"type":"`.
pub open spec fn doc_prefix() -> Seq<char> {
    seq!['{', '"', 't', 'y', 'p', 'e', '"', ':', '"']
}

/// The tag of `MainToggle`.
pub open spec fn tag_main_toggle() -> Seq<char> {
    seq!['m', 'a', 'i', 'n', 'T', 'o', 'g', 'g', 'l', 'e']
}

/// The tag of `OpenModal`.
pub open spec fn tag_open_modal() -> Seq<char> {
    seq!['o', 'p', 'e', 'n', 'M', 'o', 'd', 'a', 'l']
}

/// The tag of `Chat`.
pub open spec fn tag_chat() -> Seq<char> {
    seq!['c', 'h', 'a', 't']
}

/// What follows the tag's closing quote in a chat document, up to and
/// including the quote that opens the message text: `,"message":"`.
pub open spec fn chat_key() -> Seq<char> {
    seq![',', '"', 'm', 'e', 's', 's', 'a', 'g', 'e', '"', ':', '"']
}

/// What follows the closing quote of the tag or of the message text at the
/// end of a document: the closing brace alone.
pub open spec fn doc_close() -> Seq<char> {
    seq!['}']
}

/// A character that may stand unescaped inside a quoted region.
pub open spec fn raw_char(c: char) -> bool {
    c != '"' && c != '\\'
}

/// The wire form of one message character.
pub open spec fn escape_char(c: char) -> Seq<char> {
    if c == '"' {
        seq!['\\', '"']
    } else if c == '\\' {
        seq!['\\', '\\']
    } else if c == '\n' {
        seq!['\\', 'n']
    } else if c == '\r' {
        seq!['\\', 'r']
    } else if c == '\t' {
        seq!['\\', 't']
    } else {
        seq![c]
    }
}

/// The wire form of a message text: each character escaped in turn.
pub open spec fn escape_seq(s: Seq<char>) -> Seq<char>
    decreases s.len(),
{
    if s.len() == 0 {
        Seq::empty()
    } else {
        escape_char(s[0]) + escape_seq(s.skip(1))
    }
}

/// The message character that a backslash followed by `c` stands for, if any.
pub open spec fn unescape_char(c: char) -> Option<char> {
    if c == '"' {
        Some('"')
    } else if c == '\\' {
        Some('\\')
    } else if c == 'n' {
        Some('\n')
    } else if c == 'r' {
        Some('\r')
    } else if c == 't' {
        Some('\t')
    } else {
        None
    }
}

/// Reads a tag up to its closing quote. Yields the tag's characters and what
/// follows the quote, or nothing if the input ends first or holds a
/// backslash (tags take no escapes).
pub open spec fn scan_tag(s: Seq<char>) -> Option<(Seq<char>, Seq<char>)>
    decreases s.len(),
{
    if s.len() == 0 {
        None
    } else if s[0] == '"' {
        Some((Seq::empty(), s.skip(1)))
    } else if s[0] == '\\' {
        None
    } else {
        match scan_tag(s.skip(1)) {
            Some((t, r)) => Some((seq![s[0]] + t, r)),
            None => None,
        }
    }
}

/// Reads a quoted message text up to its closing quote, undoing escapes.
/// Yields the message's characters and what follows the quote, or nothing if
/// the input ends first or an escape is unknown.
pub open spec fn scan_body(s: Seq<char>) -> Option<(Seq<char>, Seq<char>)>
    decreases s.len(),
{
    if s.len() == 0 {
        None
    } else if s[0] == '"' {
        Some((Seq::empty(), s.skip(1)))
    } else if s[0] == '\\' {
        if s.len() < 2 {
            None
        } else {
            match unescape_char(s[1]) {
                Some(c) => match scan_body(s.skip(2)) {
                    Some((m, r)) => Some((seq![c] + m, r)),
                    None => None,
                },
                None => None,
            }
        }
    } else {
        match scan_body(s.skip(1)) {
            Some((m, r)) => Some((seq![s[0]] + m, r)),
            None => None,
        }
    }
}

/// The document that stands for an event on the wire.
pub open spec fn spec_encode(e: EventModel) -> Seq<char> {
    match e {
        EventModel::MainToggle => doc_prefix() + tag_main_toggle() + seq!['"'] + doc_close(),
        EventModel::OpenModal => doc_prefix() + tag_open_modal() + seq!['"'] + doc_close(),
        EventModel::Chat { message } => doc_prefix() + tag_chat() + seq!['"'] + chat_key()
            + escape_seq(message) + seq!['"'] + doc_close(),
    }
}

/// The event that a document stands for, or why it stands for none.
pub open spec fn spec_decode(s: Seq<char>) -> Result<EventModel, DecodeError> {
    if s.len() < 9 || s.subrange(0, 9) != doc_prefix() {
        Err(DecodeError::MalformedPayload)
    } else {
        match scan_tag(s.skip(9)) {
            None => Err(DecodeError::MalformedPayload),
            Some((tag, rest)) => {
                if tag == tag_main_toggle() {
                    if rest == doc_close() {
                        Ok(EventModel::MainToggle)
                    } else {
                        Err(DecodeError::MalformedPayload)
                    }
                } else if tag == tag_open_modal() {
                    if rest == doc_close() {
                        Ok(EventModel::OpenModal)
                    } else {
                        Err(DecodeError::MalformedPayload)
                    }
                } else if tag == tag_chat() {
                    if rest.len() < 12 || rest.subrange(0, 12) != chat_key() {
                        Err(DecodeError::MalformedPayload)
                    } else {
                        match scan_body(rest.skip(12)) {
                            None => Err(DecodeError::MalformedPayload),
                            Some((message, after)) => {
                                if after == doc_close() {
                                    Ok(EventModel::Chat { message })
                                } else {
                                    Err(DecodeError::MalformedPayload)
                                }
                            },
                        }
                    }
                } else {
                    Err(DecodeError::UnknownVariant)
                }
            },
        }
    }
}

/// A tag written out followed by its closing quote scans back to itself.
proof fn lemma_scan_tag_of(t: Seq<char>, rest: Seq<char>)
    requires
        forall|i: int| 0 <= i < t.len() ==> raw_char(t[i]),
    ensures
        scan_tag(t + seq!['"'] + rest) == Some((t, rest)),
    decreases t.len(),
{
    let s = t + seq!['"'] + rest;
    if t.len() == 0 {
        assert(s[0] == '"');
        assert(s.skip(1) =~= rest);
        assert(scan_tag(s) == Some((Seq::<char>::empty(), rest)));
        assert(t =~= Seq::<char>::empty());
    } else {
        assert(s[0] == t[0]);
        assert(raw_char(t[0]));
        assert(s.skip(1) =~= t.skip(1) + seq!['"'] + rest);
        lemma_scan_tag_of(t.skip(1), rest);
        assert(seq![t[0]] + t.skip(1) =~= t);
    }
}

/// How the scan proceeds when the first `k` characters are raw and the scan
/// has not stopped before position `k`.
proof fn lemma_scan_tag_at(t: Seq<char>, k: int)
    requires
        0 <= k <= t.len(),
        forall|i: int| 0 <= i < k ==> raw_char(t[i]),
        k == t.len() || !raw_char(t[k]),
    ensures
        scan_tag(t) == (if k == t.len() {
            None::<(Seq<char>, Seq<char>)>
        } else if t[k] == '"' {
            Some((t.take(k), t.skip(k + 1)))
        } else {
            None::<(Seq<char>, Seq<char>)>
        }),
    decreases k,
{
    if k == 0 {
        if t.len() == 0 {
        } else if t[0] == '"' {
            assert(t.take(0) =~= Seq::<char>::empty());
        }
    } else {
        assert(raw_char(t[0]));
        lemma_scan_tag_at(t.skip(1), k - 1);
        if k == t.len() {
        } else if t[k] == '"' {
            assert(t.skip(1)[k - 1] == t[k]);
            assert(seq![t[0]] + t.skip(1).take(k - 1) =~= t.take(k));
            assert(t.skip(1).skip(k) =~= t.skip(k + 1));
        } else {
            assert(t.skip(1)[k - 1] == t[k]);
        }
    }
}

/// An escaped message text followed by its closing quote scans back to the
/// message.
proof fn lemma_scan_body_of_escape(m: Seq<char>, rest: Seq<char>)
    ensures
        scan_body(escape_seq(m) + seq!['"'] + rest) == Some((m, rest)),
    decreases m.len(),
{
    let s = escape_seq(m) + seq!['"'] + rest;
    if m.len() == 0 {
        assert(escape_seq(m) =~= Seq::<char>::empty());
        assert(s[0] == '"');
        assert(s.skip(1) =~= rest);
        assert(m =~= Seq::<char>::empty());
    } else {
        let c = m[0];
        let e = escape_char(c);
        assert(s =~= e + (escape_seq(m.skip(1)) + seq!['"'] + rest));
        lemma_scan_body_of_escape(m.skip(1), rest);
        if c == '"' || c == '\\' || c == '\n' || c == '\r' || c == '\t' {
            assert(s[0] == '\\');
            assert(s.len() >= 2);
            assert(s[1] == e[1]);
            assert(unescape_char(e[1]) == Some(c));
            assert(s.skip(2) =~= escape_seq(m.skip(1)) + seq!['"'] + rest);
            assert(seq![c] + m.skip(1) =~= m);
        } else {
            assert(s[0] == c);
            assert(raw_char(c));
            assert(s.skip(1) =~= escape_seq(m.skip(1)) + seq!['"'] + rest);
            assert(seq![c] + m.skip(1) =~= m);
        }
    }
}

/// Round trip: every event decodes back from its own encoding.
pub proof fn lemma_round_trip(e: EventModel)
    ensures
        spec_decode(spec_encode(e)) == Ok::<EventModel, DecodeError>(e),
{
    let s = spec_encode(e);
    match e {
        EventModel::MainToggle => {
            assert(s.subrange(0, 9) =~= doc_prefix());
            assert(s.skip(9) =~= tag_main_toggle() + seq!['"'] + doc_close());
            lemma_scan_tag_of(tag_main_toggle(), doc_close());
        },
        EventModel::OpenModal => {
            assert(s.subrange(0, 9) =~= doc_prefix());
            assert(s.skip(9) =~= tag_open_modal() + seq!['"'] + doc_close());
            lemma_scan_tag_of(tag_open_modal(), doc_close());
        },
        EventModel::Chat { message } => {
            assert(s.subrange(0, 9) =~= doc_prefix());
            let rest = chat_key() + escape_seq(message) + seq!['"'] + doc_close();
            assert(s.skip(9) =~= tag_chat() + seq!['"'] + rest);
            lemma_scan_tag_of(tag_chat(), rest);
            assert(rest.subrange(0, 12) =~= chat_key());
            assert(rest.skip(12) =~= escape_seq(message) + seq!['"'] + doc_close());
            lemma_scan_body_of_escape(message, doc_close());
        },
    }
}

/// Escaping distributes over concatenation.
proof fn lemma_escape_seq_concat(a: Seq<char>, b: Seq<char>)
    ensures
        escape_seq(a + b) == escape_seq(a) + escape_seq(b),
    decreases a.len(),
{
    if a.len() == 0 {
        assert(a + b =~= b);
        assert(escape_seq(a) + escape_seq(b) =~= escape_seq(b));
    } else {
        assert((a + b).skip(1) =~= a.skip(1) + b);
        lemma_escape_seq_concat(a.skip(1), b);
        assert(escape_char((a + b)[0]) + (escape_seq(a.skip(1)) + escape_seq(b)) =~= (escape_char(
            a[0],
        ) + escape_seq(a.skip(1))) + escape_seq(b));
    }
}

/// Escaping one character more extends the escaped text by that character's
/// wire form.
proof fn lemma_escape_take_one_more(s: Seq<char>, i: int)
    requires
        0 <= i < s.len(),
    ensures
        escape_seq(s.take(i + 1)) == escape_seq(s.take(i)) + escape_char(s[i]),
{
    assert(s.take(i + 1) =~= s.take(i) + seq![s[i]]);
    lemma_escape_seq_concat(s.take(i), seq![s[i]]);
    let one = seq![s[i]];
    assert(one.skip(1).len() == 0);
    assert(escape_seq(one.skip(1)) == Seq::<char>::empty());
    assert(escape_seq(one) == escape_char(s[i]) + Seq::<char>::empty());
    assert(escape_char(s[i]) + Seq::<char>::empty() =~= escape_char(s[i]));
}

/// Appends the wire form of `m` to `out`.
fn append_escaped(out: &mut String, m: &str)
    ensures
        final(out)@ == old(out)@ + escape_seq(m@),
{
    let n = m.unicode_len();
    let mut i: usize = 0;
    proof {
        assert(m@.take(0) =~= Seq::<char>::empty());
        assert(out@ =~= old(out)@ + escape_seq(m@.take(0)));
    }
    while i < n
        invariant
            i <= n,
            n == m@.len(),
            out@ == old(out)@ + escape_seq(m@.take(i as int)),
        decreases n - i,
    {
        let c = m.get_char(i);
        if c == '"' {
            out.append("\\\"");
            proof {
                reveal_strlit("\\\"");
                assert("\\\""@ =~= escape_char(c));
            }
        } else if c == '\\' {
            out.append("\\\\");
            proof {
                reveal_strlit("\\\\");
                assert("\\\\"@ =~= escape_char(c));
            }
        } else if c == '\n' {
            out.append("\\n");
            proof {
                reveal_strlit("\\n");
                assert("\\n"@ =~= escape_char(c));
            }
        } else if c == '\r' {
            out.append("\\r");
            proof {
                reveal_strlit("\\r");
                assert("\\r"@ =~= escape_char(c));
            }
        } else if c == '\t' {
            out.append("\\t");
            proof {
                reveal_strlit("\\t");
                assert("\\t"@ =~= escape_char(c));
            }
        } else {
            let piece = m.substring_char(i, i + 1);
            out.append(piece);
            proof {
                assert(piece@ =~= seq![m@[i as int]]);
                assert(piece@ =~= escape_char(c));
            }
        }
        proof {
            lemma_escape_take_one_more(m@, i as int);
            assert(out@ =~= old(out)@ + escape_seq(m@.take(i + 1)));
        }
        i += 1;
    }
    proof {
        assert(m@.take(n as int) =~= m@);
    }
}

/// Writes the document that stands for `e` on the wire.
pub fn encode(e: &IPCEvent) -> (r: String)
    ensures
        r@ == spec_encode(e@),
{
    match e {
        IPCEvent::MainToggle => {
            let r = String::from_str("{\"type\":\"mainToggle\"}");
            proof {
                reveal_strlit("{\"type\":\"mainToggle\"}");
                assert(r@ =~= spec_encode(EventModel::MainToggle));
            }
            r
        },
        IPCEvent::OpenModal => {
            let r = String::from_str("{\"type\":\"openModal\"}");
            proof {
                reveal_strlit("{\"type\":\"openModal\"}");
                assert(r@ =~= spec_encode(EventModel::OpenModal));
            }
            r
        },
        IPCEvent::Chat { message } => {
            let mut r = String::from_str("{\"type\":\"chat\",\"message\":\"");
            proof {
                reveal_strlit("{\"type\":\"chat\",\"message\":\"");
                assert(r@ =~= doc_prefix() + tag_chat() + seq!['"'] + chat_key());
            }
            append_escaped(&mut r, message.as_str());
            r.append("\"}");
            proof {
                reveal_strlit("\"}");
                assert(r@ =~= spec_encode(e@));
            }
            r
        },
    }
}

/// Whether `pat` stands in `s` at position `i`.
pub(crate) fn match_at(s: &str, i: usize, pat: &str) -> (r: bool)
    requires
        i <= s@.len(),
    ensures
        r == (i + pat@.len() <= s@.len() && s@.subrange(i as int, i + pat@.len()) == pat@),
{
    let slen = s.unicode_len();
    let plen = pat.unicode_len();
    if plen > slen - i {
        return false;
    }
    let mut j: usize = 0;
    while j < plen
        invariant
            j <= plen,
            i + plen <= slen,
            slen == s@.len(),
            plen == pat@.len(),
            forall|k: int| 0 <= k < j ==> s@[i + k] == pat@[k],
        decreases plen - j,
    {
        if s.get_char(i + j) != pat.get_char(j) {
            proof {
                assert(s@.subrange(i as int, i + pat@.len())[j as int] != pat@[j as int]);
            }
            return false;
        }
        j += 1;
    }
    proof {
        assert(s@.subrange(i as int, i + pat@.len()) =~= pat@);
    }
    true
}

/// Reads the event that a document stands for, or reports why it stands for
/// none: `MalformedPayload` where the document does not have the expected
/// shape, `UnknownVariant` where its tag names no known variant.
pub fn decode(s: &str) -> (r: Result<IPCEvent, DecodeError>)
    ensures
        match r {
            Ok(e) => spec_decode(s@) == Ok::<EventModel, DecodeError>(e@),
            Err(er) => spec_decode(s@) == Err::<EventModel, DecodeError>(er),
        },
{
    let len = s.unicode_len();
    proof {
        reveal_strlit("{\"type\":\"");
        assert("{\"type\":\""@ =~= doc_prefix());
    }
    if !match_at(s, 0, "{\"type\":\"") {
        proof {
            if s@.len() >= 9 {
                assert(s@.subrange(0, 9) != doc_prefix());
            }
        }
        return Err(DecodeError::MalformedPayload);
    }
    proof {
        assert(s@.subrange(0, 9) == doc_prefix());
    }
    // Find the quote that closes the tag.
    let ghost t = s@.skip(9);
    let mut j: usize = 9;
    loop
        invariant
            9 <= j <= len,
            len == s@.len(),
            s@.len() >= 9,
            t == s@.skip(9),
            forall|k: int| 9 <= k < j ==> raw_char(s@[k]),
        ensures
            9 <= j < len,
            len == s@.len(),
            s@[j as int] == '"',
            forall|k: int| 9 <= k < j ==> raw_char(s@[k]),
        decreases len - j,
    {
        if j >= len {
            proof {
                assert(forall|i: int| 0 <= i < t.len() ==> raw_char(t[i]));
                lemma_scan_tag_at(t, t.len() as int);
            }
            return Err(DecodeError::MalformedPayload);
        }
        let c = s.get_char(j);
        if c == '"' {
            break;
        }
        if c == '\\' {
            proof {
                assert(t[j - 9] == s@[j as int]);
                lemma_scan_tag_at(t, j - 9);
            }
            return Err(DecodeError::MalformedPayload);
        }
        j += 1;
    }
    proof {
        assert(t[j - 9] == s@[j as int]);
        lemma_scan_tag_at(t, j - 9);
        assert(scan_tag(t) == Some((t.take(j - 9), t.skip(j - 9 + 1))));
        assert(t.take(j - 9) =~= s@.subrange(9, j as int));
        assert(t.skip(j - 9 + 1) =~= s@.skip(j + 1));
    }
    let ghost tag = s@.subrange(9, j as int);
    let ghost rest = s@.skip(j + 1);
    proof {
        reveal_strlit("mainToggle");
        reveal_strlit("openModal");
        reveal_strlit("chat");
        assert("mainToggle"@ =~= tag_main_toggle());
        assert("openModal"@ =~= tag_open_modal());
        assert("chat"@ =~= tag_chat());
    }
    if j - 9 == 10 && match_at(s, 9, "mainToggle") {
        proof {
            assert(tag =~= tag_main_toggle());
        }
        if close_follows(s, j) {
            Ok(IPCEvent::MainToggle)
        } else {
            Err(DecodeError::MalformedPayload)
        }
    } else if j - 9 == 9 && match_at(s, 9, "openModal") {
        proof {
            assert(tag =~= tag_open_modal());
        }
        if close_follows(s, j) {
            Ok(IPCEvent::OpenModal)
        } else {
            Err(DecodeError::MalformedPayload)
        }
    } else if j - 9 == 4 && match_at(s, 9, "chat") {
        proof {
            assert(tag =~= tag_chat());
        }
        decode_chat_rest(s, j)
    } else {
        proof {
            assert(tag != tag_main_toggle());
            assert(tag != tag_open_modal());
            assert(tag != tag_chat());
        }
        Err(DecodeError::UnknownVariant)
    }
}

/// Whether the document ends in a closing brace right after position `j`,
/// which is what `doc_close` asks of the remainder.
fn close_follows(s: &str, j: usize) -> (r: bool)
    requires
        j < s@.len(),
    ensures
        r == (s@.skip(j + 1) == doc_close()),
{
    let len = s.unicode_len();
    if j + 1 < len && len - (j + 1) == 1 && s.get_char(j + 1) == '}' {
        proof {
            assert(s@.skip(j + 1) =~= doc_close());
        }
        true
    } else {
        proof {
            let rest = s@.skip(j + 1);
            assert(doc_close() == seq!['}']);
            assert(doc_close().len() == 1 && doc_close()[0] == '}');
            assert(rest.len() == s@.len() - (j + 1));
            if rest.len() == 1 {
                assert(rest[0] == s@[j + 1]);
                assert(rest[0] != '}');
                assert(rest != doc_close());
            } else {
                assert(rest != doc_close());
            }
        }
        false
    }
}

/// Reads the `,"message":"…"}` remainder of a chat document that stands after
/// the tag's closing quote at position `j`.
fn decode_chat_rest(s: &str, j: usize) -> (r: Result<IPCEvent, DecodeError>)
    requires
        j < s@.len(),
        s@.len() >= 9,
        s@.subrange(0, 9) == doc_prefix(),
        scan_tag(s@.skip(9)) == Some((tag_chat(), s@.skip(j + 1))),
    ensures
        match r {
            Ok(e) => spec_decode(s@) == Ok::<EventModel, DecodeError>(e@),
            Err(er) => spec_decode(s@) == Err::<EventModel, DecodeError>(er),
        },
{
    let ghost rest = s@.skip(j + 1);
    let len = s.unicode_len();
    proof {
        reveal_strlit(",\"message\":\"");
        assert(",\"message\":\""@ =~= chat_key());
    }
    if !match_at(s, j + 1, ",\"message\":\"") {
        proof {
            if rest.len() >= 12 {
                assert(rest.subrange(0, 12) =~= s@.subrange(j + 1, j + 13));
                assert(rest.subrange(0, 12) != chat_key());
            }
        }
        return Err(DecodeError::MalformedPayload);
    }
    proof {
        assert(rest.subrange(0, 12) =~= s@.subrange(j + 1, j + 13));
        assert(rest.subrange(0, 12) == chat_key());
        assert(rest.skip(12) =~= s@.skip(j + 13));
    }
    let ghost body = s@.skip(j + 13);
    let mut msg = String::new();
    let mut p: usize = j + 13;
    loop
        invariant
            j + 13 <= p <= len,
            len == s@.len(),
            body == s@.skip(j + 13),
            rest == s@.skip(j + 1),
            rest.len() >= 12,
            rest.subrange(0, 12) == chat_key(),
            s@.len() >= 9,
            s@.subrange(0, 9) == doc_prefix(),
            scan_tag(s@.skip(9)) == Some((tag_chat(), rest)),
            rest.skip(12) == body,
            scan_body(body) == match scan_body(s@.skip(p as int)) {
                Some((m, r)) => Some((msg@ + m, r)),
                None => None::<(Seq<char>, Seq<char>)>,
            },
        decreases len - p,
    {
        if p >= len {
            proof {
                assert(s@.skip(p as int).len() == 0);
            }
            return Err(DecodeError::MalformedPayload);
        }
        let c = s.get_char(p);
        let ghost at_p = s@.skip(p as int);
        proof {
            assert(at_p[0] == s@[p as int]);
        }
        if c == '"' {
            proof {
                assert(at_p.skip(1) =~= s@.skip(p + 1));
                assert(scan_body(body) == Some((msg@ + Seq::<char>::empty(), s@.skip(p + 1))));
                assert(msg@ + Seq::<char>::empty() =~= msg@);
            }
            if close_follows(s, p) {
                return Ok(IPCEvent::Chat { message: msg });
            } else {
                return Err(DecodeError::MalformedPayload);
            }
        } else if c == '\\' {
            if p + 1 >= len {
                proof {
                    assert(at_p.len() < 2);
                }
                return Err(DecodeError::MalformedPayload);
            }
            let e = s.get_char(p + 1);
            let ghost prev = msg@;
            proof {
                assert(at_p[1] == s@[p + 1]);
                assert(at_p.skip(2) =~= s@.skip(p + 2));
            }
            if e == '"' {
                msg.append("\"");
                proof {
                    reveal_strlit("\"");
                    assert("\""@ =~= seq!['"']);
                }
            } else if e == '\\' {
                msg.append("\\");
                proof {
                    reveal_strlit("\\");
                    assert("\\"@ =~= seq!['\\']);
                }
            } else if e == 'n' {
                msg.append("\n");
                proof {
                    reveal_strlit("\n");
                    assert("\n"@ =~= seq!['\n']);
                }
            } else if e == 'r' {
                msg.append("\r");
                proof {
                    reveal_strlit("\r");
                    assert("\r"@ =~= seq!['\r']);
                }
            } else if e == 't' {
                msg.append("\t");
                proof {
                    reveal_strlit("\t");
                    assert("\t"@ =~= seq!['\t']);
                }
            } else {
                proof {
                    assert(unescape_char(at_p[1]) is None);
                }
                return Err(DecodeError::MalformedPayload);
            }
            proof {
                let u = unescape_char(at_p[1])->Some_0;
                assert(msg@ == prev + seq![u]);
                assert forall|m: Seq<char>| #[trigger] (msg@ + m) == prev + (seq![u] + m) by {
                    assert(prev + (seq![u] + m) =~= msg@ + m);
                };
            }
            p += 2;
        } else {
            let ghost prev = msg@;
            let piece = s.substring_char(p, p + 1);
            msg.append(piece);
            proof {
                let c0 = s@[p as int];
                assert(piece@ =~= seq![c0]);
                assert(at_p.skip(1) =~= s@.skip(p + 1));
                assert(msg@ == prev + seq![c0]);
                assert forall|m: Seq<char>| #[trigger] (msg@ + m) == prev + (seq![c0] + m) by {
                    assert(prev + (seq![c0] + m) =~= msg@ + m);
                };
            }
            p += 1;
        }
    }
}

/// A well-formed document whose tag names no known variant is rejected as an
/// unknown variant, whatever follows the tag.
pub proof fn lemma_unknown_tag(tag: Seq<char>, rest: Seq<char>)
    requires
        forall|i: int| 0 <= i < tag.len() ==> raw_char(tag[i]),
        tag != tag_main_toggle(),
        tag != tag_open_modal(),
        tag != tag_chat(),
    ensures
        spec_decode(doc_prefix() + tag + seq!['"'] + rest) == Err::<
            EventModel,
            DecodeError,
        >(DecodeError::UnknownVariant),
{
    let s = doc_prefix() + tag + seq!['"'] + rest;
    assert(s.subrange(0, 9) =~= doc_prefix());
    assert(s.skip(9) =~= tag + seq!['"'] + rest);
    lemma_scan_tag_of(tag, rest);
}

} // verus!
