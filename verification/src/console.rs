//! The console output capability and the writer that transcodes native text
//! into zero-terminated runs of 16-bit code units.

use vstd::prelude::*;
use crate::chars::{representable, unit_of, Char16};
use crate::status::{classify, error_code, Status, DEVICE_ERROR};

verus! {

/// Number of code units staged before a run is issued.
pub const BUF_SIZE: usize = 128;

/// The line-feed code unit.
pub const LINE_FEED: u16 = 10;

/// The carriage-return code unit.
pub const CARRIAGE_RETURN: u16 = 13;

/// Why a write did not complete.
#[derive(Clone, Copy, Debug, PartialEq, Eq, Structural)]
pub enum WriteError {
    /// A code point of the input does not fit one code unit.
    Conversion,
    /// The output call refused a run.
    Failed,
}

/// A console output capability: it keeps every code unit it was handed, counts
/// the calls it accepted, and refuses further calls once `limit` is reached.
pub struct Output {
    units: Vec<u16>,
    calls: usize,
    limit: usize,
}

/// What an `Output` holds, as plain values.
pub struct OutputView {
    pub units: Seq<u16>,
    pub calls: nat,
    pub limit: nat,
}

impl OutputView {
    /// Whether the next output call is accepted.
    pub open spec fn accepting(self) -> bool {
        self.calls < self.limit
    }

    /// How many further calls are accepted.
    pub open spec fn room(self) -> nat {
        if self.calls <= self.limit {
            (self.limit - self.calls) as nat
        } else {
            0
        }
    }
}

impl View for Output {
    type V = OutputView;

    closed spec fn view(&self) -> OutputView {
        OutputView { units: self.units@, calls: self.calls as nat, limit: self.limit as nat }
    }
}

impl Output {
    /// An output that has shown nothing and accepts `limit` calls.
    pub fn with_limit(limit: usize) -> (r: Output)
        ensures
            r@ == (OutputView { units: Seq::empty(), calls: 0, limit: limit as nat }),
    {
        Output { units: Vec::new(), calls: 0, limit }
    }

    /// An output that has shown nothing and accepts as many calls as can be counted.
    pub fn new() -> (r: Output)
        ensures
            r@ == (OutputView { units: Seq::empty(), calls: 0, limit: usize::MAX as nat }),
    {
        Output::with_limit(usize::MAX)
    }

    /// Issues one zero-terminated run. An accepting output keeps every unit
    /// before the final terminator and answers with the success code; one that
    /// has reached its limit keeps nothing and answers with a device error.
    pub fn output_string(&mut self, text: &[u16]) -> (code: u64)
        requires
            text@.len() >= 1,
            text@.last() == 0,
        ensures
            old(self)@.accepting() ==> code == 0 && final(self)@ == (OutputView {
                units: old(self)@.units + text@.drop_last(),
                calls: old(self)@.calls + 1,
                limit: old(self)@.limit,
            }),
            !old(self)@.accepting() ==> is_refusal(code) && final(self)@ == old(self)@,
    {
        if self.calls >= self.limit {
            return error_code(DEVICE_ERROR);
        }
        let run: usize = text.len() - 1;
        let mut j: usize = 0;
        while j < run
            invariant
                run == text@.len() - 1,
                j <= run,
                self.calls == old(self).calls,
                self.limit == old(self).limit,
                self.units@ == old(self).units@ + text@.take(j as int),
            decreases run - j,
        {
            self.units.push(text[j]);
            proof {
                assert(text@.take(j + 1) =~= text@.take(j as int).push(text@[j as int]));
            }
            j += 1;
        }
        proof {
            assert(text@.take(run as int) =~= text@.drop_last());
        }
        self.calls += 1;
        0
    }

    /// Every code unit shown so far, in order.
    pub fn shown(&self) -> (r: &Vec<u16>)
        ensures
            r@ == self@.units,
    {
        &self.units
    }

    /// The number of calls accepted so far.
    pub fn calls(&self) -> (r: usize)
        ensures
            r == self@.calls,
    {
        self.calls
    }

    /// The number of calls after which the output refuses.
    pub fn limit(&self) -> (r: usize)
        ensures
            r == self@.limit,
    {
        self.limit
    }
}

/// The code with which an output refuses a call: the device error.
pub open spec fn is_refusal(code: u64) -> bool {
    crate::status::classify_spec(code) == Status::Error(DEVICE_ERROR)
}

/// The code units that one code point puts out: itself, and after a line feed
/// a carriage return.
pub open spec fn units_for(c: char) -> Seq<u16> {
    if unit_of(c) == LINE_FEED {
        seq![LINE_FEED, CARRIAGE_RETURN]
    } else {
        seq![unit_of(c)]
    }
}

/// The code units of a text: those of its code points, in order.
pub open spec fn emitted(s: Seq<char>) -> Seq<u16>
    decreases s.len(),
{
    if s.len() == 0 {
        Seq::empty()
    } else {
        emitted(s.drop_last()) + units_for(s.last())
    }
}

/// Whether every code point of a text fits one code unit.
pub open spec fn convertible(s: Seq<char>) -> bool {
    forall|j: int| 0 <= j < s.len() ==> representable(#[trigger] s[j])
}

/// Whether `p` is the place of the first code point that does not fit.
pub open spec fn is_first_bad(s: Seq<char>, p: int) -> bool {
    &&& 0 <= p < s.len()
    &&& !representable(s[p])
    &&& forall|j: int| 0 <= j < p ==> representable(#[trigger] s[j])
}

/// The text up to, and without, its first code point that does not fit.
pub open spec fn valid_prefix(s: Seq<char>) -> Seq<char> {
    if convertible(s) {
        s
    } else {
        s.take(choose|p: int| is_first_bad(s, p))
    }
}

/// The code units that a write of `s` stages before it ends or fails to convert.
pub open spec fn staged(s: Seq<char>) -> Seq<u16> {
    emitted(valid_prefix(s))
}

/// The output calls that a write of `s` with staging capacity `n` makes where
/// none is refused: one for every full buffer, and the final one where the
/// whole text converts.
pub open spec fn wanted_flushes(s: Seq<char>, n: nat) -> nat {
    let full = staged(s).len() / n;
    if convertible(s) {
        full + 1
    } else {
        full
    }
}

/// The first `n` units of `q`, or all of `q` where it is shorter.
pub open spec fn leading(q: Seq<u16>, n: nat) -> Seq<u16> {
    if n <= q.len() {
        q.take(n as int)
    } else {
        q
    }
}

/// The output calls that a write of `s` gets accepted on an output in state `pre`.
pub open spec fn granted_flushes(pre: OutputView, s: Seq<char>, n: nat) -> nat {
    if wanted_flushes(s, n) <= pre.room() {
        wanted_flushes(s, n)
    } else {
        pre.room()
    }
}

/// The state in which a write of `s` with staging capacity `n` leaves an
/// output that was in state `pre`.
pub open spec fn output_after(pre: OutputView, s: Seq<char>, n: nat) -> OutputView {
    let granted = granted_flushes(pre, s, n);
    OutputView {
        units: pre.units + leading(staged(s), granted * n),
        calls: pre.calls + granted,
        limit: pre.limit,
    }
}

/// What a write of `s` returns on an output in state `pre`: the generic
/// failure where a call was refused, else the conversion error where a code
/// point does not fit, else success.
pub open spec fn write_result(pre: OutputView, s: Seq<char>, n: nat) -> Result<(), WriteError> {
    if granted_flushes(pre, s, n) < wanted_flushes(s, n) {
        Err(WriteError::Failed)
    } else if convertible(s) {
        Ok(())
    } else {
        Err(WriteError::Conversion)
    }
}

/// Consuming one more code point appends its units.
pub proof fn lemma_emitted_step(s: Seq<char>, m: int)
    requires
        0 <= m < s.len(),
    ensures
        emitted(s.take(m + 1)) == emitted(s.take(m)) + units_for(s[m]),
{
    assert(s.take(m + 1).drop_last() =~= s.take(m));
}

/// The units of a shorter prefix begin the units of a longer one.
pub proof fn lemma_emitted_prefix(s: Seq<char>, a: int, b: int)
    requires
        0 <= a <= b <= s.len(),
    ensures
        emitted(s.take(a)).len() <= emitted(s.take(b)).len(),
        emitted(s.take(b)).take(emitted(s.take(a)).len() as int) == emitted(s.take(a)),
    decreases b - a,
{
    if a < b {
        lemma_emitted_prefix(s, a, b - 1);
        lemma_emitted_step(s, b - 1);
        let short = emitted(s.take(a));
        let mid = emitted(s.take(b - 1));
        assert((mid + units_for(s[b - 1])).take(short.len() as int) =~= mid.take(short.len() as int));
    } else {
        assert(emitted(s.take(a)).take(emitted(s.take(a)).len() as int) =~= emitted(s.take(a)));
    }
}

/// Where the first `m` code points fit, their units begin the staged units.
pub proof fn lemma_staged_extends(s: Seq<char>, m: int)
    requires
        0 <= m <= s.len(),
        forall|j: int| 0 <= j < m ==> representable(#[trigger] s[j]),
    ensures
        emitted(s.take(m)).len() <= staged(s).len(),
        staged(s).take(emitted(s.take(m)).len() as int) == emitted(s.take(m)),
{
    if convertible(s) {
        assert(s.take(s.len() as int) =~= s);
        lemma_emitted_prefix(s, m, s.len() as int);
    } else {
        let bad = choose|j: int| 0 <= j < s.len() && !representable(#[trigger] s[j]);
        lemma_first_bad_exists(s, bad);
        let p = choose|p: int| is_first_bad(s, p);
        assert(is_first_bad(s, p));
        if p < m {
            assert(representable(s[p]));
        }
        lemma_emitted_prefix(s, m, p);
    }
}

/// Where some code point does not fit, there is a first one.
pub proof fn lemma_first_bad_exists(s: Seq<char>, bad: int)
    requires
        0 <= bad < s.len(),
        !representable(s[bad]),
    ensures
        exists|p: int| is_first_bad(s, p),
    decreases bad,
{
    if forall|j: int| 0 <= j < bad ==> representable(#[trigger] s[j]) {
        assert(is_first_bad(s, bad));
    } else {
        let earlier = choose|j: int| 0 <= j < bad && !representable(#[trigger] s[j]);
        lemma_first_bad_exists(s, earlier);
    }
}

/// Where `m` is the first code point that does not fit, the staged units are
/// those of the `m` code points before it.
pub proof fn lemma_staged_at_first_bad(s: Seq<char>, m: int)
    requires
        is_first_bad(s, m),
    ensures
        !convertible(s),
        staged(s) == emitted(s.take(m)),
{
    let p = choose|p: int| is_first_bad(s, p);
    assert(is_first_bad(s, p));
    if p < m {
        assert(representable(s[p]));
    }
    if m < p {
        assert(representable(s[m]));
    }
}

/// Adapter that writes native text to a console output.
pub struct OutputWriter {
    output: Output,
    capacity: usize,
}

impl OutputWriter {
    /// A writer bound to `output` that stages `BUF_SIZE` units.
    pub fn new(output: Output) -> (r: OutputWriter)
        ensures
            r.well_formed(),
            r.output_view() == output@,
            r.capacity() == BUF_SIZE,
    {
        OutputWriter { output, capacity: BUF_SIZE }
    }

    /// A writer bound to `output` that stages `capacity` units. There is none
    /// that stages no unit.
    pub fn with_capacity(output: Output, capacity: usize) -> (r: Option<OutputWriter>)
        ensures
            capacity == 0 ==> r is None,
            capacity >= 1 ==> (r matches Some(w) && w.well_formed() && w.output_view() == output@
                && w.capacity() == capacity),
    {
        if capacity == 0 {
            None
        } else {
            Some(OutputWriter { output, capacity })
        }
    }

    /// Whether the writer stages at least one unit.
    pub closed spec fn well_formed(&self) -> bool {
        self.capacity >= 1
    }

    /// The number of units staged before a run is issued.
    pub closed spec fn capacity(&self) -> nat {
        self.capacity as nat
    }

    /// The state of the output this writer is bound to.
    pub closed spec fn output_view(&self) -> OutputView {
        self.output@
    }

    /// The output this writer is bound to.
    pub fn output(&self) -> (r: &Output)
        ensures
            r@ == self.output_view(),
    {
        &self.output
    }

    /// Gives the output back.
    pub fn into_output(self) -> (r: Output)
        ensures
            r@ == self.output_view(),
    {
        self.output
    }

    /// Terminates the staged run, issues it and empties the staging buffer.
    fn flush_buffer(&mut self, buf: &mut Vec<u16>) -> (r: Result<(), WriteError>)
        ensures
            final(buf)@.len() == 0,
            final(self).capacity == old(self).capacity,
            old(self).output@.accepting() ==> r == Ok::<(), WriteError>(()) && final(self).output@
                == (OutputView {
                units: old(self).output@.units + old(buf)@,
                calls: old(self).output@.calls + 1,
                limit: old(self).output@.limit,
            }),
            !old(self).output@.accepting() ==> r == Err::<(), WriteError>(WriteError::Failed)
                && final(self).output@ == old(self).output@,
    {
        buf.push(0);
        proof {
            assert(buf@.drop_last() =~= old(buf)@);
        }
        let code: u64 = self.output.output_string(buf.as_slice());
        buf.clear();
        match classify(code) {
            Status::Error(_) => Err(WriteError::Failed),
            _ => Ok(()),
        }
    }

    /// Stages one code unit, and flushes where that fills the buffer.
    fn add_unit(&mut self, buf: &mut Vec<u16>, unit: u16) -> (r: Result<(), WriteError>)
        requires
            old(buf)@.len() < old(self).capacity,
        ensures
            final(self).capacity == old(self).capacity,
            final(buf)@.len() < old(self).capacity,
            old(buf)@.len() + 1 < old(self).capacity ==> r is Ok && final(buf)@ == old(buf)@.push(
                unit,
            ) && final(self).output@ == old(self).output@,
            old(buf)@.len() + 1 == old(self).capacity && old(self).output@.accepting() ==> r is Ok
                && final(buf)@.len() == 0 && final(self).output@ == (OutputView {
                units: old(self).output@.units + old(buf)@.push(unit),
                calls: old(self).output@.calls + 1,
                limit: old(self).output@.limit,
            }),
            old(buf)@.len() + 1 == old(self).capacity && !old(self).output@.accepting() ==> r
                == Err::<(), WriteError>(WriteError::Failed) && final(self).output@ == old(
                self,
            ).output@,
    {
        buf.push(unit);
        if buf.len() == self.capacity {
            self.flush_buffer(buf)
        } else {
            Ok(())
        }
    }

    /// Writes `s` to the output. Each code point becomes one code unit, a line
    /// feed is followed by a carriage return, a run is issued whenever the
    /// staged units reach the capacity, and a last run, possibly empty, is
    /// issued at the end of the text. The write stops at the first code point
    /// that does not fit one unit, with the conversion error, and at the first
    /// run that the output refuses, with the generic failure.
    pub fn write_str(&mut self, s: &str) -> (r: Result<(), WriteError>)
        requires
            old(self).well_formed(),
        ensures
            final(self).well_formed(),
            final(self).capacity() == old(self).capacity(),
            final(self).output_view() == output_after(
                old(self).output_view(),
                s@,
                old(self).capacity(),
            ),
            r == write_result(old(self).output_view(), s@, old(self).capacity()),
    {
        let ghost pre = self.output@;
        let ghost text = s@;
        let ghost cap = self.capacity as nat;
        let mut buf: Vec<u16> = Vec::new();
        let n: usize = s.unicode_len();
        let mut idx: usize = 0;
        let ghost mut k: nat = 0;
        proof {
            assert(text.take(0) =~= Seq::<char>::empty());
            assert(pre.units + emitted(text.take(0)).take(0) =~= pre.units);
            assert(0 * cap == 0) by (nonlinear_arith);
        }
        while idx < n
            invariant
                text == s@,
                pre == old(self).output@,
                cap == self.capacity,
                cap == old(self).capacity,
                cap >= 1,
                n == text.len(),
                idx <= n,
                buf@.len() < cap,
                forall|j: int| 0 <= j < idx ==> representable(#[trigger] text[j]),
                emitted(text.take(idx as int)).len() == k * cap + buf@.len(),
                buf@ == emitted(text.take(idx as int)).skip((k * cap) as int),
                k <= pre.room(),
                self.output@.units == pre.units + emitted(text.take(idx as int)).take(
                    (k * cap) as int,
                ),
                self.output@.calls == pre.calls + k,
                self.output@.limit == pre.limit,
            decreases n - idx,
        {
            let c: char = s.get_char(idx);
            let ghost before = emitted(text.take(idx as int));
            let ghost after = emitted(text.take(idx as int + 1));
            proof {
                lemma_emitted_step(text, idx as int);
                lemma_full_runs(before.len(), k, buf@.len(), cap);
            }
            match Char16::try_from(c) {
                Err(_) => {
                    proof {
                        lemma_staged_at_first_bad(text, idx as int);
                        assert(wanted_flushes(text, cap) == k);
                        assert(granted_flushes(pre, text, cap) == k);
                    }
                    return Err(WriteError::Conversion);
                },
                Ok(ch) => {
                    let unit: u16 = ch.code();
                    let ghost one = before.push(unit);
                    proof {
                        lemma_staged_extends(text, idx as int + 1);
                        assert(after.take(one.len() as int) =~= one);
                        assert(staged(text).take(one.len() as int) =~= one);
                        lemma_refused(pre, text, one, k, cap);
                    }
                    let first = self.add_unit(&mut buf, unit);
                    if first.is_err() {
                        proof {
                            assert(one.take((k * cap) as int) =~= before.take((k * cap) as int));
                        }
                        return Err(WriteError::Failed);
                    }
                    proof {
                        if buf@.len() == 0 {
                            k = k + 1;
                        }
                        assert(buf@ =~= one.skip((k * cap) as int));
                        assert(self.output@.units =~= pre.units + one.take((k * cap) as int));
                    }
                    if unit == LINE_FEED {
                        let ghost two = one.push(CARRIAGE_RETURN);
                        proof {
                            assert(after =~= two);
                            lemma_full_runs(one.len(), k, buf@.len(), cap);
                            lemma_refused(pre, text, two, k, cap);
                        }
                        let second = self.add_unit(&mut buf, CARRIAGE_RETURN);
                        if second.is_err() {
                            proof {
                                assert(two.take((k * cap) as int) =~= one.take((k * cap) as int));
                            }
                            return Err(WriteError::Failed);
                        }
                        proof {
                            if buf@.len() == 0 {
                                k = k + 1;
                            }
                            assert(buf@ =~= two.skip((k * cap) as int));
                            assert(self.output@.units =~= pre.units + two.take((k * cap) as int));
                        }
                    } else {
                        proof {
                            assert(after =~= one);
                        }
                    }
                },
            }
            idx += 1;
        }
        proof {
            assert(text.take(idx as int) =~= text);
            assert(convertible(text));
            assert(emitted(text).take((k * cap) as int) + buf@ =~= emitted(text));
            lemma_full_runs(emitted(text).len(), k, buf@.len(), cap);
            assert(wanted_flushes(text, cap) == k + 1);
            assert(pre.units + emitted(text).take((k * cap) as int) + buf@ =~= pre.units
                + emitted(text));
        }
        self.flush_buffer(&mut buf)
    }
}

/// A length of `k` full runs and a rest shorter than a run holds exactly `k` runs.
pub proof fn lemma_full_runs(len: nat, k: nat, rest: nat, n: nat)
    requires
        len == k * n + rest,
        rest < n,
    ensures
        len / n == k,
        k * n <= len < (k + 1) * n,
        (k + 1) * n == k * n + n,
{
    vstd::arithmetic::div_mod::lemma_fundamental_div_mod_converse(
        len as int,
        n as int,
        k as int,
        rest as int,
    );
    assert((k + 1) * n == k * n + n) by (nonlinear_arith);
    assert(0 <= k * n) by (nonlinear_arith);
}

/// Where `part` begins the staged units and the output takes no call beyond
/// the `k` it took, a write that has staged `part` is granted `k` calls, fewer
/// than it wants once `part` fills a further run, and shows `k` runs of `part`.
pub proof fn lemma_refused(pre: OutputView, s: Seq<char>, part: Seq<u16>, k: nat, n: nat)
    requires
        n >= 1,
        part.len() <= staged(s).len(),
        staged(s).take(part.len() as int) == part,
        0 <= k * n <= part.len(),
        k <= pre.room(),
    ensures
        pre.room() <= k && part.len() >= (k + 1) * n ==> granted_flushes(pre, s, n) == k && k
            < wanted_flushes(s, n),
        leading(staged(s), k * n) == part.take((k * n) as int),
{
    assert(staged(s).take((k * n) as int) =~= part.take((k * n) as int));
    if part.len() >= (k + 1) * n {
        lemma_full_runs((k + 1) * n, k + 1, 0, n);
        vstd::arithmetic::div_mod::lemma_div_is_ordered(
            ((k + 1) * n) as int,
            staged(s).len() as int,
            n as int,
        );
    }
}

/// A text that converts, written with staging capacity `n` to an output with
/// room for every run, shows exactly its units, each line feed followed by a
/// carriage return, and takes as many calls as the units and the final
/// terminator fill buffers of `n`, rounded up.
pub proof fn lemma_write_round_trip(pre: OutputView, s: Seq<char>, n: nat)
    requires
        n >= 1,
        convertible(s),
        wanted_flushes(s, n) <= pre.room(),
    ensures
        write_result(pre, s, n) == Ok::<(), WriteError>(()),
        output_after(pre, s, n).units == pre.units + emitted(s),
        output_after(pre, s, n).calls == pre.calls + (emitted(s).len() + 1 + n - 1) / (n as int),
{
    let len = emitted(s).len();
    let q = len / n;
    vstd::arithmetic::div_mod::lemma_fundamental_div_mod(len as int, n as int);
    assert(n * q == q * n) by (nonlinear_arith);
    lemma_full_runs(len, q, len % n, n);
    lemma_full_runs(len + n, q + 1, len % n, n);
}

/// A text with a code point that does not fit, written to an output with room,
/// fails with the conversion error, and issues no run at all where fewer units
/// than fill one buffer precede that code point.
pub proof fn lemma_write_unconvertible(pre: OutputView, s: Seq<char>, n: nat)
    requires
        n >= 1,
        !convertible(s),
        wanted_flushes(s, n) <= pre.room(),
    ensures
        write_result(pre, s, n) == Err::<(), WriteError>(WriteError::Conversion),
        staged(s).len() < n ==> output_after(pre, s, n) == pre,
{
    if staged(s).len() < n {
        lemma_full_runs(staged(s).len(), 0, staged(s).len(), n);
        assert(pre.units + staged(s).take(0) =~= pre.units);
    }
}

} // verus!
