//! The order of a benchmark run's stages and their timings. The run itself
//! (fetching, proving) happens outside; each stage's outcome is handed in
//! and the next step is decided here.
use vstd::prelude::*;
use crate::backend::Backend;

verus! {

/// The stages of a run, in the order they happen.
#[derive(Debug, Clone, Copy, PartialEq, Eq, Structural)]
pub enum Stage {
    Fetch,
    Witness,
    BuildInput,
    /// Kept as a named stage that does nothing, so its zero time is reported.
    Validate,
    Execute,
    Prove,
    Verify,
}

pub const STAGE_COUNT: usize = 7;

pub const NANOS_PER_MILLI: u64 = 1_000_000;

pub open spec fn stage_at(i: int) -> Stage {
    if i == 0 {
        Stage::Fetch
    } else if i == 1 {
        Stage::Witness
    } else if i == 2 {
        Stage::BuildInput
    } else if i == 3 {
        Stage::Validate
    } else if i == 4 {
        Stage::Execute
    } else if i == 5 {
        Stage::Prove
    } else {
        Stage::Verify
    }
}

fn stage_of(i: usize) -> (r: Stage)
    requires
        i < STAGE_COUNT,
    ensures
        r == stage_at(i as int),
{
    if i == 0 {
        Stage::Fetch
    } else if i == 1 {
        Stage::Witness
    } else if i == 2 {
        Stage::BuildInput
    } else if i == 3 {
        Stage::Validate
    } else if i == 4 {
        Stage::Execute
    } else if i == 5 {
        Stage::Prove
    } else {
        Stage::Verify
    }
}

/// Whole milliseconds in a duration given in nanoseconds.
pub open spec fn millis(nanos: u64) -> u64 {
    (nanos / NANOS_PER_MILLI) as u64
}

pub open spec fn sum(s: Seq<u64>) -> nat
    decreases s.len(),
{
    if s.len() == 0 {
        0
    } else {
        sum(s.drop_last()) + s.last() as nat
    }
}

/// What happened in the stage under way.
#[derive(Debug, Clone, Copy, PartialEq, Eq, Structural)]
pub enum StageEvent {
    Done { nanos: u64 },
    Failed,
}

/// What the caller does next.
#[derive(Debug, Clone, Copy, PartialEq, Eq, Structural)]
pub enum Action {
    Start(Stage),
    Report,
    Abort(Stage),
}

/// A run in progress: the milliseconds of the stages completed so far.
pub struct Run {
    done_ms: Vec<u64>,
    aborted: bool,
}

/// The record of a completed run.
pub struct BenchmarkResult {
    pub block_number: u64,
    pub chain_id: u64,
    pub backend: Backend,
    pub stage_ms: Vec<u64>,
    pub total_ms: u64,
    pub cycles: u64,
}

impl Run {
    pub closed spec fn completed(&self) -> Seq<u64> {
        self.done_ms@
    }

    pub closed spec fn is_aborted(&self) -> bool {
        self.aborted
    }

    pub open spec fn wf(&self) -> bool {
        &&& self.completed().len() <= STAGE_COUNT
        &&& forall|i: int|
            0 <= i < self.completed().len() ==> #[trigger] self.completed()[i] <= u64::MAX
                / NANOS_PER_MILLI
    }

    /// A run before its first stage; the caller starts with `Stage::Fetch`.
    pub fn new() -> (r: Run)
        ensures
            r.wf(),
            r.completed().len() == 0,
            !r.is_aborted(),
    {
        Run { done_ms: Vec::new(), aborted: false }
    }

    /// Records the outcome of the stage under way and says what to do next:
    /// start the following stage, report a finished run, or abort naming
    /// the stage that failed.
    pub fn step(&mut self, event: StageEvent) -> (r: Action)
        requires
            old(self).wf(),
            !old(self).is_aborted(),
            old(self).completed().len() < STAGE_COUNT,
        ensures
            final(self).wf(),
            match event {
                StageEvent::Done { nanos } => {
                    &&& final(self).completed() == old(self).completed().push(millis(nanos))
                    &&& !final(self).is_aborted()
                    &&& r == if final(self).completed().len() < STAGE_COUNT {
                        Action::Start(stage_at(final(self).completed().len() as int))
                    } else {
                        Action::Report
                    }
                },
                StageEvent::Failed => {
                    &&& final(self).completed() == old(self).completed()
                    &&& final(self).is_aborted()
                    &&& r == Action::Abort(stage_at(old(self).completed().len() as int))
                },
            },
    {
        match event {
            StageEvent::Done { nanos } => {
                self.done_ms.push(nanos / NANOS_PER_MILLI);
                if self.done_ms.len() < STAGE_COUNT {
                    Action::Start(stage_of(self.done_ms.len()))
                } else {
                    Action::Report
                }
            },
            StageEvent::Failed => {
                self.aborted = true;
                Action::Abort(stage_of(self.done_ms.len()))
            },
        }
    }

    /// The record of a run whose every stage completed; `None` before that.
    /// The total is the sum of the reported stage times.
    pub fn finish(&self, block_number: u64, chain_id: u64, backend: Backend, cycles: u64) -> (r:
        Option<BenchmarkResult>)
        requires
            self.wf(),
        ensures
            r is Some <==> (self.completed().len() == STAGE_COUNT && !self.is_aborted()),
            r matches Some(res) ==> {
                &&& res.stage_ms@ == self.completed()
                &&& res.total_ms as nat == sum(res.stage_ms@)
                &&& res.block_number == block_number
                &&& res.chain_id == chain_id
                &&& res.backend == backend
                &&& res.cycles == cycles
            },
    {
        if self.aborted || self.done_ms.len() != STAGE_COUNT {
            return None;
        }
        let mut total: u64 = 0;
        let mut stage_ms: Vec<u64> = Vec::new();
        let mut i: usize = 0;
        while i < self.done_ms.len()
            invariant
                self.wf(),
                i <= self.completed().len(),
                stage_ms@ == self.completed().take(i as int),
                total as nat == sum(stage_ms@),
                total as nat <= i * (u64::MAX / NANOS_PER_MILLI) as nat,
            decreases self.completed().len() - i,
        {
            let ms = self.done_ms[i];
            assert(ms == self.completed()[i as int]);
            let ghost before = stage_ms@;
            stage_ms.push(ms);
            assert(stage_ms@.drop_last() == before);
            assert(stage_ms@ == self.completed().take(i + 1));
            let ghost cap: nat = (u64::MAX / NANOS_PER_MILLI) as nat;
            assert(total as nat + ms as nat <= (i + 1) * cap) by (nonlinear_arith)
                requires
                    total as nat <= i * cap,
                    ms as nat <= cap,
            ;
            assert((i + 1) * cap <= STAGE_COUNT * cap) by (nonlinear_arith)
                requires
                    i < STAGE_COUNT,
            ;
            total = total + ms;
            i = i + 1;
        }
        assert(self.completed().take(i as int) == self.completed());
        Some(BenchmarkResult { block_number, chain_id, backend, stage_ms, total_ms: total, cycles })
    }
}

/// The decimal digits of `n`, as ASCII, most significant first.
pub open spec fn decimal(n: nat) -> Seq<u8>
    decreases n,
{
    if n < 10 {
        seq![(0x30 + n) as u8]
    } else {
        decimal(n / 10).push((0x30 + n % 10) as u8)
    }
}

fn push_decimal(out: &mut Vec<u8>, n: u64)
    ensures
        final(out)@ == old(out)@ + decimal(n as nat),
    decreases n,
{
    if n >= 10 {
        push_decimal(out, n / 10);
    }
    out.push((0x30 + n % 10) as u8);
    assert(out@ =~= old(out)@ + decimal(n as nat));
}

/// The ASCII tag of a backend's harness used in file names: `rsp` for SP1,
/// `zeth` for RISC Zero.
pub open spec fn backend_tag(b: Backend) -> Seq<u8> {
    match b {
        Backend::Sp1 => seq![0x72u8, 0x73u8, 0x70u8],
        Backend::Risc0 => seq![0x7au8, 0x65u8, 0x74u8, 0x68u8],
    }
}

pub open spec fn bench_infix() -> Seq<u8> {
    seq![0x5fu8, 0x62u8, 0x65u8, 0x6eu8, 0x63u8, 0x68u8, 0x5fu8]
}

pub open spec fn json_suffix() -> Seq<u8> {
    seq![0x2eu8, 0x6au8, 0x73u8, 0x6fu8, 0x6eu8]
}

fn push_all(out: &mut Vec<u8>, b: &[u8])
    ensures
        final(out)@ == old(out)@ + b@,
{
    let ghost start = out@;
    let mut i: usize = 0;
    while i < b.len()
        invariant
            i <= b@.len(),
            out@ == start + b@.subrange(0, i as int),
        decreases b@.len() - i,
    {
        out.push(b[i]);
        assert(b@.subrange(0, i + 1) == b@.subrange(0, i as int).push(b@[i as int]));
        i = i + 1;
    }
    assert(b@.subrange(0, i as int) == b@);
}

impl BenchmarkResult {
    /// The default name of the result file, keyed by backend and block
    /// number: `<backend>_bench_<number>.json`, in ASCII.
    pub fn default_file_name(&self) -> (r: Vec<u8>)
        ensures
            r@ == backend_tag(self.backend) + bench_infix() + decimal(self.block_number as nat)
                + json_suffix(),
    {
        let mut out: Vec<u8> = Vec::new();
        match self.backend {
            Backend::Sp1 => push_all(&mut out, &[0x72u8, 0x73u8, 0x70u8]),
            Backend::Risc0 => push_all(&mut out, &[0x7au8, 0x65u8, 0x74u8, 0x68u8]),
        }
        push_all(&mut out, &[0x5fu8, 0x62u8, 0x65u8, 0x6eu8, 0x63u8, 0x68u8, 0x5fu8]);
        push_decimal(&mut out, self.block_number);
        push_all(&mut out, &[0x2eu8, 0x6au8, 0x73u8, 0x6fu8, 0x6eu8]);
        out
    }
}

} // verus!
