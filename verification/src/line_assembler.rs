//! Line reassembly: turning an arbitrary sequence of received text chunks
//! into discrete `\r\n`-terminated protocol lines.
//!
//! The transport reads whatever bytes are available, so a line may arrive
//! split across reads or several lines may arrive in one read. The
//! assembler keeps the unterminated tail in its buffer; each completed
//! line is trimmed and handed out unless it is empty, exactly the lines
//! the transport broadcasts to its subscribers.

use vstd::prelude::*;
use vstd::string::StrSliceExecFns;
use vstd::string::StringExecFns;
use crate::text;

verus! {

/// Position of the first `\r\n` in `s`, or `-1` when there is none.
pub open spec fn first_terminator(s: Seq<char>) -> int
    decreases s.len(),
{
    if s.len() < 2 {
        -1
    } else if s[0] == '\r' && s[1] == '\n' {
        0
    } else {
        let r = first_terminator(s.subrange(1, s.len() as int));
        if r < 0 {
            -1
        } else {
            1 + r
        }
    }
}

pub proof fn lemma_first_terminator_bounds(s: Seq<char>)
    ensures
        first_terminator(s) == -1 || (0 <= first_terminator(s) && first_terminator(s) + 2
            <= s.len()),
    decreases s.len(),
{
    if s.len() >= 2 && !(s[0] == '\r' && s[1] == '\n') {
        lemma_first_terminator_bounds(s.subrange(1, s.len() as int));
    }
}

/// `first_terminator` is the unique position with a terminator and none
/// before it.
pub proof fn lemma_first_terminator_is(s: Seq<char>, i: int)
    requires
        0 <= i,
        i + 2 <= s.len(),
        s[i] == '\r' && s[i + 1] == '\n',
        forall|k: int| 0 <= k < i ==> !((#[trigger] s[k]) == '\r' && s[k + 1] == '\n'),
    ensures
        first_terminator(s) == i,
    decreases s.len(),
{
    if i == 0 {
    } else {
        let t = s.subrange(1, s.len() as int);
        assert(forall|k: int| 0 <= k < i - 1 ==> !((#[trigger] t[k]) == '\r' && t[k + 1]
            == '\n')) by {
            assert(forall|k: int| 0 <= k < i - 1 ==> (#[trigger] t[k]) == s[k + 1] && t[k + 1] == s[k + 2]);
        }
        lemma_first_terminator_is(t, i - 1);
    }
}

/// Where `first_terminator` points, a terminator stands, and none before.
pub proof fn lemma_first_terminator_props(s: Seq<char>)
    ensures
        first_terminator(s) >= 0 ==> s[first_terminator(s)] == '\r' && s[first_terminator(s)
            + 1] == '\n',
        forall|k: int| 0 <= k < first_terminator(s) ==> !((#[trigger] s[k]) == '\r' && s[k + 1]
            == '\n'),
    decreases s.len(),
{
    if s.len() < 2 {
    } else if s[0] == '\r' && s[1] == '\n' {
    } else {
        let t = s.subrange(1, s.len() as int);
        lemma_first_terminator_props(t);
        lemma_first_terminator_bounds(t);
        assert forall|k: int| 1 <= k < first_terminator(s) implies !((#[trigger] s[k]) == '\r'
            && s[k + 1] == '\n') by {
            assert(t[k - 1] == s[k]);
            assert(t[k] == s[k + 1]);
            assert(!(t[k - 1] == '\r' && t[k] == '\n'));
        }
    }
}

/// No terminator anywhere in `s` means `first_terminator` reports none.
pub proof fn lemma_first_terminator_none(s: Seq<char>)
    requires
        forall|k: int| 0 <= k && k + 2 <= s.len() ==> !((#[trigger] s[k]) == '\r' && s[k + 1]
            == '\n'),
    ensures
        first_terminator(s) == -1,
    decreases s.len(),
{
    if s.len() >= 2 {
        let t = s.subrange(1, s.len() as int);
        assert(forall|k: int| 0 <= k && k + 2 <= t.len() ==> !((#[trigger] t[k]) == '\r' && t[k
            + 1] == '\n')) by {
            assert(forall|k: int| 0 <= k && k + 2 <= t.len() ==> (#[trigger] t[k]) == s[k + 1] && t[k + 1]
                == s[k + 2]);
        }
        lemma_first_terminator_none(t);
    }
}

/// The trimmed, non-empty lines that a buffer's complete lines yield, in
/// order: what the transport broadcasts.
pub open spec fn broadcast_lines(s: Seq<char>) -> Seq<Seq<char>>
    decreases s.len(),
    via broadcast_lines_dec
{
    let i = first_terminator(s);
    if i < 0 {
        seq![]
    } else {
        let line = text::trim_spec(s.subrange(0, i));
        let rest = broadcast_lines(s.subrange(i + 2, s.len() as int));
        if line.len() > 0 {
            seq![line] + rest
        } else {
            rest
        }
    }
}

#[via_fn]
proof fn broadcast_lines_dec(s: Seq<char>) {
    lemma_first_terminator_bounds(s);
}

/// The unterminated tail left in the buffer after every complete line is
/// taken out.
pub open spec fn rest_after(s: Seq<char>) -> Seq<char>
    decreases s.len(),
    via rest_after_dec
{
    let i = first_terminator(s);
    if i < 0 {
        s
    } else {
        rest_after(s.subrange(i + 2, s.len() as int))
    }
}

#[via_fn]
proof fn rest_after_dec(s: Seq<char>) {
    lemma_first_terminator_bounds(s);
}

/// Reassembly is insensitive to fragmentation: processing `s` and then
/// `t` yields the same broadcast lines and the same leftover tail as
/// processing `s + t` at once.
pub proof fn lemma_fragmentation(s: Seq<char>, t: Seq<char>)
    ensures
        broadcast_lines(s + t) == broadcast_lines(s) + broadcast_lines(rest_after(s) + t),
        rest_after(s + t) == rest_after(rest_after(s) + t),
    decreases s.len(),
{
    lemma_first_terminator_bounds(s);
    lemma_first_terminator_props(s);
    let i = first_terminator(s);
    if i < 0 {
        assert(rest_after(s) == s);
        assert(broadcast_lines(s) + broadcast_lines(s + t) =~= broadcast_lines(s + t));
    } else {
        assert(first_terminator(s + t) == i) by {
            assert((s + t)[i] == '\r' && (s + t)[i + 1] == '\n');
            assert(forall|k: int| 0 <= k < i ==> !((#[trigger] (s + t)[k]) == '\r' && (s + t)[k
                + 1] == '\n')) by {
                assert(forall|k: int| 0 <= k < i ==> (#[trigger] (s + t)[k]) == s[k] && (s + t)[k + 1] == s[k
                    + 1]);
            }
            lemma_first_terminator_is(s + t, i);
        }
        let s1 = s.subrange(i + 2, s.len() as int);
        assert((s + t).subrange(i + 2, (s + t).len() as int) =~= s1 + t);
        assert((s + t).subrange(0, i) =~= s.subrange(0, i));
        lemma_fragmentation(s1, t);
        assert(broadcast_lines(s + t) =~= broadcast_lines(s) + broadcast_lines(rest_after(s)
            + t)) by {
            if text::trim_spec(s.subrange(0, i)).len() > 0 {
                assert(broadcast_lines(s) =~= seq![text::trim_spec(s.subrange(0, i))]
                    + broadcast_lines(s1));
            } else {
                assert(broadcast_lines(s) =~= broadcast_lines(s1));
            }
        }
    }
}

/// Accumulates received text and splits out terminated lines.
pub struct LineAssembler {
    buf: String,
}

impl View for LineAssembler {
    type V = Seq<char>;

    closed spec fn view(&self) -> Seq<char> {
        self.buf@
    }
}

impl LineAssembler {
    /// An assembler with an empty buffer.
    pub fn new() -> (r: LineAssembler)
        ensures
            r@ == Seq::<char>::empty(),
    {
        let r = LineAssembler { buf: String::new() };
        proof {
            assert(r@ =~= Seq::<char>::empty());
        }
        r
    }

    /// Index of the first `\r\n` in the buffer, if any.
    fn find_terminator(&self) -> (r: Option<usize>)
        ensures
            r is Some ==> first_terminator(self@) == r.unwrap(),
            r is None ==> first_terminator(self@) == -1,
    {
        let s = self.buf.as_str();
        let n = s.unicode_len();
        if n < 2 {
            proof {
                lemma_first_terminator_none(s@);
            }
            return None;
        }
        let mut k: usize = 0;
        while k < n - 1
            invariant
                0 <= k <= n - 1,
                n >= 2,
                n == s@.len(),
                s@ == self@,
                forall|j: int| 0 <= j < k ==> !((#[trigger] s@[j]) == '\r' && s@[j + 1] == '\n'),
            decreases n - k,
        {
            if s.get_char(k) == '\r' && s.get_char(k + 1) == '\n' {
                proof {
                    lemma_first_terminator_is(s@, k as int);
                }
                return Some(k);
            }
            k += 1;
        }
        proof {
            lemma_first_terminator_none(s@);
        }
        None
    }

    /// Feeds one received chunk; returns the broadcast lines it completes.
    ///
    /// The contract is exactly the reassembly specification: afterwards
    /// the buffer holds the unterminated tail of everything fed so far,
    /// and the returned lines are the trimmed, non-empty complete lines
    /// of the old buffer extended by `chunk`.
    pub fn feed(&mut self, chunk: &str) -> (out: Vec<String>)
        ensures
            final(self)@ == rest_after(old(self)@ + chunk@),
            out@.map_values(|l: String| l@) == broadcast_lines(old(self)@ + chunk@),
    {
        self.buf.append(chunk);
        let ghost total = self.buf@;
        let mut out: Vec<String> = Vec::new();
        proof {
            assert(out@.map_values(|l: String| l@) =~= Seq::<Seq<char>>::empty());
        }
        loop
            invariant
                broadcast_lines(total) == out@.map_values(|l: String| l@) + broadcast_lines(
                    self@,
                ),
                rest_after(total) == rest_after(self@),
            ensures
                first_terminator(self@) == -1,
                broadcast_lines(total) == out@.map_values(|l: String| l@),
                rest_after(total) == self@,
            decreases self@.len(),
        {
            let found = self.find_terminator();
            match found {
                None => {
                    proof {
                        assert(broadcast_lines(self@) =~= Seq::<Seq<char>>::empty());
                        assert(out@.map_values(|l: String| l@) + Seq::<Seq<char>>::empty()
                            =~= out@.map_values(|l: String| l@));
                    }
                    break;
                },
                Some(i) => {
                    proof {
                        lemma_first_terminator_bounds(self@);
                    }
                    let ghost pre = self@;
                    let s = self.buf.as_str();
                    let n = s.unicode_len();
                    let raw = s.substring_char(0, i);
                    let line = text::trim(raw);
                    let keep = line.unicode_len() > 0;
                    let owned_line = line.to_owned();
                    let rest = s.substring_char(i + 2, n).to_owned();
                    self.buf = rest;
                    proof {
                        assert(self@ =~= pre.subrange(i + 2, pre.len() as int));
                    }
                    if keep {
                        let ghost prev_out = out@;
                        out.push(owned_line);
                        proof {
                            assert(broadcast_lines(pre) =~= seq![owned_line@]
                                + broadcast_lines(self@));
                            assert(out@.map_values(|l: String| l@) =~= prev_out.map_values(
                                |l: String| l@,
                            ) + seq![owned_line@]);
                            assert((prev_out.map_values(|l: String| l@) + seq![owned_line@])
                                + broadcast_lines(self@) =~= prev_out.map_values(|l: String| l@)
                                + (seq![owned_line@] + broadcast_lines(self@)));
                        }
                    } else {
                        proof {
                            assert(broadcast_lines(pre) =~= broadcast_lines(self@));
                        }
                    }
                },
            }
        }
        out
    }

    /// The unterminated text currently held back.
    pub fn pending(&self) -> (r: &str)
        ensures
            r@ == self@,
    {
        self.buf.as_str()
    }
}

} // verus!
