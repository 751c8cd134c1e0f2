//! Framing of the serial byte stream into CRLF-terminated lines.
//!
//! The reader thread appends every chunk it receives to a buffer, takes
//! every complete line out of it, decodes each (lossily) as UTF-8 and
//! passes on the lines that are not blank. What the thread does with the
//! port, the stop flag and the channel stays with the caller; the decisions
//! are `listener_step`.
use vstd::prelude::*;
use vstd::utf8::{decode_utf8, valid_utf8};
use crate::ascii_error::AsciiError;
use crate::text::{is_blank, is_whitespace, strings_view};

verus! {

/// Carriage return, line feed.
pub open spec fn crlf() -> Seq<u8> {
    seq![13u8, 10u8]
}

/// A CRLF pair starts at index `i` of `b`.
pub open spec fn is_crlf_at(b: Seq<u8>, i: int) -> bool {
    0 <= i && i + 1 < b.len() && b[i] == 13u8 && b[i + 1] == 10u8
}

/// No CRLF pair starts before index `p`.
pub open spec fn no_crlf_before(b: Seq<u8>, p: int) -> bool {
    forall|j: int| 0 <= j < p ==> !is_crlf_at(b, j)
}

/// `b` contains no CRLF pair at all.
pub open spec fn no_crlf(b: Seq<u8>) -> bool {
    no_crlf_before(b, b.len() as int)
}

/// Index of the first CRLF pair in `b`.
pub open spec fn crlf_index(b: Seq<u8>) -> Option<nat>
    decreases b.len(),
{
    if b.len() < 2 {
        None
    } else if b[0] == 13u8 && b[1] == 10u8 {
        Some(0)
    } else {
        match crlf_index(b.drop_first()) {
            Some(k) => Some(k + 1),
            None => None,
        }
    }
}

/// The first complete line of `b` and what follows its CRLF.
pub open spec fn next_line(b: Seq<u8>) -> Option<(Seq<u8>, Seq<u8>)> {
    match crlf_index(b) {
        Some(p) => Some((b.take(p as int), b.skip(p + 2int))),
        None => None,
    }
}

/// Every complete line of `b`, in order, and the incomplete rest.
pub open spec fn drain_lines(b: Seq<u8>) -> (Seq<Seq<u8>>, Seq<u8>)
    decreases b.len(),
{
    match crlf_index(b) {
        Some(p) => if p + 2 <= b.len() {
            let (ls, rest) = drain_lines(b.skip(p + 2int));
            (seq![b.take(p as int)] + ls, rest)
        } else {
            (seq![], b)
        },
        None => (seq![], b),
    }
}

/// Lines joined back together, each followed by CRLF.
pub open spec fn join_lines(ls: Seq<Seq<u8>>) -> Seq<u8>
    decreases ls.len(),
{
    if ls.len() == 0 {
        seq![]
    } else {
        ls[0] + crlf() + join_lines(ls.drop_first())
    }
}

/// What `String::from_utf8_lossy` makes of `bytes`.
pub uninterp spec fn utf8_lossy(bytes: Seq<u8>) -> Seq<char>;

/// The decoded lines that are passed on: the non-blank ones, in order.
pub open spec fn visible_lines(ls: Seq<Seq<u8>>) -> Seq<Seq<char>>
    decreases ls.len(),
{
    if ls.len() == 0 {
        seq![]
    } else {
        let prev = visible_lines(ls.drop_last());
        let t = utf8_lossy(ls.last());
        if is_blank(t) {
            prev
        } else {
            prev.push(t)
        }
    }
}

/// Lines delivered and buffer left when `chunk` arrives on top of `buffer`.
pub open spec fn receive(buffer: Seq<u8>, chunk: Seq<u8>) -> (Seq<Seq<char>>, Seq<u8>) {
    let (ls, rest) = drain_lines(buffer + chunk);
    (visible_lines(ls), rest)
}

/// `crlf_index` finds the first CRLF pair.
pub proof fn lemma_crlf_index(b: Seq<u8>)
    ensures
        match crlf_index(b) {
            Some(p) => is_crlf_at(b, p as int) && no_crlf_before(b, p as int),
            None => no_crlf(b),
        },
    decreases b.len(),
{
    if b.len() >= 2 && !(b[0] == 13u8 && b[1] == 10u8) {
        let t = b.drop_first();
        lemma_crlf_index(t);
        assert forall|j: int| 1 <= j < b.len() implies is_crlf_at(b, j) == is_crlf_at(t, j - 1) by {
            if j + 1 < b.len() {
                assert(b[j] == t[j - 1]);
                assert(b[j + 1] == t[j]);
            }
        }
    }
}

/// The first CRLF pair is the one that `crlf_index` reports.
pub proof fn lemma_crlf_index_is(b: Seq<u8>, p: int)
    requires
        is_crlf_at(b, p),
        no_crlf_before(b, p),
    ensures
        crlf_index(b) == Some(p as nat),
{
    lemma_crlf_index(b);
    match crlf_index(b) {
        Some(q) => {
            if (q as int) < p {
                assert(!is_crlf_at(b, q as int));
            } else if p < (q as int) {
                assert(!is_crlf_at(b, p));
            }
        },
        None => {
            assert(!is_crlf_at(b, p));
        },
    }
}

/// A line is the bytes before the first CRLF; the line, the CRLF and the
/// rest make up the buffer again, and the line holds no CRLF.
pub proof fn lemma_next_line_splits(b: Seq<u8>)
    ensures
        next_line(b) matches Some((l, r)) ==> b == l + crlf() + r && no_crlf(l),
        next_line(b) is None <==> no_crlf(b),
{
    lemma_crlf_index(b);
    if let Some(p) = crlf_index(b) {
        let l = b.take(p as int);
        let r = b.skip(p + 2int);
        assert(b =~= l + crlf() + r);
        assert forall|j: int| 0 <= j < l.len() implies !is_crlf_at(l, j) by {
            if is_crlf_at(l, j) {
                assert(is_crlf_at(b, j));
            }
        }
    }
}

/// A line without CRLF, followed by CRLF and anything, is taken back out
/// whole: writing a line and extracting it is the identity.
pub proof fn lemma_next_line_of_written(l: Seq<u8>, r: Seq<u8>)
    requires
        no_crlf(l),
    ensures
        next_line(l + crlf() + r) == Some((l, r)),
{
    let b = l + crlf() + r;
    assert(is_crlf_at(b, l.len() as int));
    assert forall|j: int| 0 <= j < l.len() implies !is_crlf_at(b, j) by {
        if j + 1 < l.len() {
            assert(b[j] == l[j] && b[j + 1] == l[j + 1]);
            assert(!is_crlf_at(l, j));
        } else {
            assert(b[j + 1] == 13u8);
        }
    }
    lemma_crlf_index_is(b, l.len() as int);
    assert(b.take(l.len() as int) =~= l);
    assert(b.skip(l.len() + 2int) =~= r);
}

/// Draining a buffer leaves no complete line behind, and the lines and the
/// rest reassemble into the buffer.
pub proof fn lemma_drain_reassembles(b: Seq<u8>)
    ensures
        join_lines(drain_lines(b).0) + drain_lines(b).1 == b,
        no_crlf(drain_lines(b).1),
        forall|i: int| 0 <= i < drain_lines(b).0.len() ==> no_crlf(#[trigger] drain_lines(b).0[i]),
    decreases b.len(),
{
    lemma_crlf_index(b);
    lemma_next_line_splits(b);
    match crlf_index(b) {
        Some(p) => {
            let l = b.take(p as int);
            let r = b.skip(p + 2int);
            lemma_drain_reassembles(r);
            let (ls, rest) = drain_lines(r);
            let all = seq![l] + ls;
            assert(all.drop_first() =~= ls);
            assert(join_lines(all) == l + crlf() + join_lines(ls));
            assert(join_lines(all) + rest =~= l + crlf() + (join_lines(ls) + rest));
            assert forall|i: int| 0 <= i < all.len() implies no_crlf(#[trigger] all[i]) by {
                if i > 0 {
                    assert(all[i] == ls[i - 1]);
                }
            }
        },
        None => {
            assert(join_lines(seq![]) + b =~= b);
        },
    }
}

/// A CRLF pair inside `b` is found at the same place in `b + c`.
proof fn lemma_crlf_index_extend(b: Seq<u8>, c: Seq<u8>)
    requires
        crlf_index(b) is Some,
    ensures
        crlf_index(b + c) == crlf_index(b),
{
    lemma_crlf_index(b);
    let p = crlf_index(b).unwrap() as int;
    let bc = b + c;
    assert(is_crlf_at(bc, p)) by {
        assert(bc[p] == b[p] && bc[p + 1] == b[p + 1]);
    }
    assert forall|j: int| 0 <= j < p implies !is_crlf_at(bc, j) by {
        assert(bc[j] == b[j] && bc[j + 1] == b[j + 1]);
        assert(!is_crlf_at(b, j));
    }
    lemma_crlf_index_is(bc, p);
}

/// Framing does not depend on how the stream was cut into chunks: draining
/// `b + c` gives the lines of `b`, then those of what `b` left plus `c`.
pub proof fn lemma_drain_append(b: Seq<u8>, c: Seq<u8>)
    ensures
        drain_lines(b + c) == (
            drain_lines(b).0 + drain_lines(drain_lines(b).1 + c).0,
            drain_lines(drain_lines(b).1 + c).1,
        ),
    decreases b.len(),
{
    lemma_crlf_index(b);
    match crlf_index(b) {
        Some(p) => {
            lemma_crlf_index_extend(b, c);
            let r = b.skip(p + 2int);
            assert((b + c).skip(p + 2int) =~= r + c);
            assert((b + c).take(p as int) =~= b.take(p as int));
            lemma_drain_append(r, c);
            let (ls, rest) = drain_lines(r);
            let (ls2, rest2) = drain_lines(rest + c);
            assert(seq![b.take(p as int)] + (ls + ls2) =~= (seq![b.take(p as int)] + ls) + ls2);
        },
        None => {
            assert(seq![] + drain_lines(b + c).0 =~= drain_lines(b + c).0);
        },
    }
}

/// The visible lines of two batches are those of each batch, in order.
pub proof fn lemma_visible_append(a: Seq<Seq<u8>>, b: Seq<Seq<u8>>)
    ensures
        visible_lines(a + b) == visible_lines(a) + visible_lines(b),
    decreases b.len(),
{
    if b.len() == 0 {
        assert(a + b =~= a);
        assert(visible_lines(a) + seq![] =~= visible_lines(a));
    } else {
        assert((a + b).drop_last() =~= a + b.drop_last());
        assert((a + b).last() == b.last());
        lemma_visible_append(a, b.drop_last());
        let t = utf8_lossy(b.last());
        if !is_blank(t) {
            assert((visible_lines(a) + visible_lines(b.drop_last())).push(t) =~= visible_lines(a)
                + visible_lines(b.drop_last()).push(t));
        }
    }
}

/// Receiving two chunks one after the other delivers the same lines, and
/// leaves the same buffer, as receiving them as one chunk.
pub proof fn lemma_receive_chunking(buffer: Seq<u8>, c1: Seq<u8>, c2: Seq<u8>)
    ensures
        receive(buffer, c1 + c2).0 == receive(buffer, c1).0 + receive(receive(buffer, c1).1, c2).0,
        receive(buffer, c1 + c2).1 == receive(receive(buffer, c1).1, c2).1,
{
    assert(buffer + (c1 + c2) =~= (buffer + c1) + c2);
    lemma_drain_append(buffer + c1, c2);
    let (ls1, rest1) = drain_lines(buffer + c1);
    lemma_visible_append(ls1, drain_lines(rest1 + c2).0);
}

/// `String::from_utf8_lossy`: decodes UTF-8, replacing each invalid
/// sequence with U+FFFD. The result is named `utf8_lossy`; on valid
/// UTF-8 it is the plain decoding, as the documentation states.
#[verifier::external_body]
fn decode_lossy(bytes: &Vec<u8>) -> (r: String)
    ensures
        r@ == utf8_lossy(bytes@),
        valid_utf8(bytes@) ==> r@ == decode_utf8(bytes@),
{
    String::from_utf8_lossy(bytes).into_owned()
}

/// Takes the first complete line out of `buffer`: the bytes before the
/// first CRLF, which is removed with them. Without a CRLF the buffer is
/// left as it is.
pub fn extract_line(buffer: &mut Vec<u8>) -> (r: Option<Vec<u8>>)
    ensures
        match next_line(old(buffer)@) {
            Some((l, rest)) => r matches Some(line) && line@ == l && final(buffer)@ == rest,
            None => r is None && final(buffer)@ == old(buffer)@,
        },
{
    let ghost b = buffer@;
    let n = buffer.len();
    let mut i: usize = 0;
    while i < n && i + 1 < n
        invariant
            b == buffer@,
                    b == old(buffer)@,
            n == b.len(),
            no_crlf_before(b, i as int),
            i <= n,
        decreases n - i,
    {
        if buffer[i] == 13u8 && buffer[i + 1] == 10u8 {
            proof {
                lemma_crlf_index_is(b, i as int);
            }
            let mut line: Vec<u8> = Vec::new();
            let mut k: usize = 0;
            while k < i
                invariant
                    b == buffer@,
                    b == old(buffer)@,
                    i + 1 < n == b.len(),
                    crlf_index(b) == Some(i as nat),
                    k <= i,
                    line@ == b.take(k as int),
                decreases i - k,
            {
                line.push(buffer[k]);
                k = k + 1;
                assert(line@ =~= b.take(k as int));
            }
            let mut rest: Vec<u8> = Vec::new();
            let mut k: usize = i + 2;
            while k < n
                invariant
                    b == buffer@,
                    b == old(buffer)@,
                    i + 2 <= k <= n == b.len(),
                    crlf_index(b) == Some(i as nat),
                    line@ == b.take(i as int),
                    rest@ == b.subrange(i + 2, k as int),
                decreases n - k,
            {
                rest.push(buffer[k]);
                k = k + 1;
                assert(rest@ =~= b.subrange(i + 2, k as int));
            }
            assert(rest@ =~= b.skip(i + 2));
            *buffer = rest;
            return Some(line);
        }
        i = i + 1;
    }
    proof {
        assert forall|j: int| 0 <= j < b.len() implies !is_crlf_at(b, j) by {
            if j >= i {
                assert(j + 1 >= b.len());
            }
        }
        lemma_crlf_index(b);
        if let Some(p) = crlf_index(b) {
            assert(!is_crlf_at(b, p as int));
        }
    }
    None
}

fn blank(cs: &String) -> (r: bool)
    ensures
        r == is_blank(cs@),
{
    let v = crate::text::chars_of(cs.as_str());
    let mut i: usize = 0;
    while i < v.len()
        invariant
            v@ == cs@,
            0 <= i <= v@.len(),
            forall|j: int| 0 <= j < i ==> crate::text::is_ws(#[trigger] v@[j]),
        decreases v@.len() - i,
    {
        if !is_whitespace(v[i]) {
            return false;
        }
        i = i + 1;
    }
    true
}

/// What happened on the port since the last step.
pub enum ListenerEvent {
    /// Bytes were read (possibly none).
    Received(Vec<u8>),
    /// The read timed out.
    TimedOut,
    /// The read failed; the message describes the failure.
    Failed(String),
}

/// What the reader thread does next.
pub enum ListenerAction {
    /// Send these lines, in order, and keep reading.
    Deliver(Vec<String>),
    /// Send this error and stop.
    Abort(AsciiError),
}

/// One step of the reader: a non-empty chunk is appended to the buffer and
/// every complete line taken out; the non-blank ones are delivered. An
/// empty read or a timeout changes nothing; a failure ends the stream.
pub fn listener_step(buffer: &mut Vec<u8>, event: ListenerEvent) -> (r: ListenerAction)
    ensures
        match event {
            ListenerEvent::Received(chunk) => if chunk@.len() == 0 {
                r matches ListenerAction::Deliver(v) && v@.len() == 0 && final(buffer)@ == old(
                    buffer,
                )@
            } else {
                r matches ListenerAction::Deliver(v) && strings_view(v@) == receive(
                    old(buffer)@,
                    chunk@,
                ).0 && final(buffer)@ == receive(old(buffer)@, chunk@).1
            },
            ListenerEvent::TimedOut => r matches ListenerAction::Deliver(v) && v@.len() == 0
                && final(buffer)@ == old(buffer)@,
            ListenerEvent::Failed(msg) => r matches ListenerAction::Abort(
                AsciiError::ReadError(m),
            ) && m@ == msg@ && final(buffer)@ == old(buffer)@,
        },
{
    match event {
        ListenerEvent::Received(chunk) => {
            let mut out: Vec<String> = Vec::new();
            if chunk.len() == 0 {
                return ListenerAction::Deliver(out);
            }
            let mut k: usize = 0;
            let ghost b0 = buffer@;
            while k < chunk.len()
                invariant
                    b0 == old(buffer)@,
                    k <= chunk@.len(),
                    buffer@ == b0 + chunk@.take(k as int),
                decreases chunk@.len() - k,
            {
                buffer.push(chunk[k]);
                k = k + 1;
                assert(buffer@ =~= b0 + chunk@.take(k as int));
            }
            assert(chunk@.take(chunk@.len() as int) =~= chunk@);
            let ghost all = buffer@;
            let ghost mut done: Seq<Seq<u8>> = seq![];
            loop
                invariant
                    all == old(buffer)@ + chunk@,
                    drain_lines(all).0 == done + drain_lines(buffer@).0,
                    drain_lines(all).1 == drain_lines(buffer@).1,
                    strings_view(out@) == visible_lines(done),
                ensures
                    strings_view(out@) == visible_lines(drain_lines(all).0),
                    buffer@ == drain_lines(all).1,
                decreases buffer@.len(),
            {
                let ghost before = buffer@;
                match extract_line(buffer) {
                    Some(line) => {
                        proof {
                            lemma_crlf_index(before);
                            let p = crlf_index(before).unwrap();
                            assert(drain_lines(before).0 == seq![line@] + drain_lines(buffer@).0);
                            assert(done + (seq![line@] + drain_lines(buffer@).0) =~= done.push(
                                line@,
                            ) + drain_lines(buffer@).0);
                        }
                        let ghost old_done = done;
                        let ghost old_out = out@;
                        proof {
                            done = done.push(line@);
                            assert(done.drop_last() =~= old_done);
                            assert(done.last() == line@);
                        }
                        let text = decode_lossy(&line);
                        if !blank(&text) {
                            out.push(text);
                            assert(strings_view(out@) =~= strings_view(old_out).push(text@));
                        }
                    },
                    None => {
                        proof {
                            lemma_crlf_index(before);
                            assert(drain_lines(before) == (Seq::<Seq<u8>>::empty(), before));
                            assert(done + Seq::<Seq<u8>>::empty() =~= done);
                        }
                        break ;
                    },
                }
            }
            ListenerAction::Deliver(out)
        },
        ListenerEvent::TimedOut => ListenerAction::Deliver(Vec::new()),
        ListenerEvent::Failed(msg) => ListenerAction::Abort(AsciiError::ReadError(msg)),
    }
}

} // verus!
