//! Control of the autoregressive acoustic decoder: when the step loop
//! stops, how wide the attention mask of each step is, and which tokens
//! and lengths are handed to the vocoder afterwards. The tensor work of
//! each step is done by the caller.
use vstd::prelude::*;

verus! {

/// Most decoder steps of one chunk.
pub const MAX_DECODE_STEPS: usize = 1499;

/// The token that ends a decoded sequence.
pub const EOS_TOKEN: i64 = 1024;

/// Hop length of the reference audio at 32 kHz, in samples.
pub const HOP_LENGTH: usize = 640;

/// What the decoder loop does after a step.
#[derive(Clone, Copy, PartialEq, Eq, Debug)]
pub enum Step {
    /// Run another step.
    Continue,
    /// The end token came out at this step: the number of steps taken.
    Done(usize),
    /// The last allowed step ended without the end token.
    LimitExceeded,
}

/// The outcome of step number `k + 1`, after `k` earlier steps, whose
/// sampled token is `sample` and whose arg-max token is `logit`.
pub open spec fn step_outcome(k: nat, sample: i64, logit: i64) -> Step {
    if sample == EOS_TOKEN || logit == EOS_TOKEN {
        Step::Done((k + 1) as usize)
    } else if k + 1 >= MAX_DECODE_STEPS {
        Step::LimitExceeded
    } else {
        Step::Continue
    }
}

/// Whether every step of a run of outputs asks for another step.
pub open spec fn all_continue(outs: Seq<(i64, i64)>) -> bool {
    forall|i: int| 0 <= i < outs.len() ==> step_outcome(i as nat, (#[trigger] outs[i]).0, outs[i].1) == Step::Continue
}

/// The decoder loop stops within `MAX_DECODE_STEPS` steps: however the
/// steps come out, no run of more than `MAX_DECODE_STEPS - 1` steps all
/// asks for another step.
pub proof fn lemma_decode_terminates(outs: Seq<(i64, i64)>)
    requires
        all_continue(outs),
    ensures
        outs.len() < MAX_DECODE_STEPS,
{
    if outs.len() >= MAX_DECODE_STEPS {
        let i = MAX_DECODE_STEPS - 1;
        assert(step_outcome(i as nat, outs[i as int].0, outs[i as int].1) != Step::Continue);
    }
}

/// The state of the decoder loop of one chunk.
pub struct DecodeLoop {
    /// Steps taken so far.
    pub steps: usize,
    /// Length of the phoneme sequence (reference and chunk).
    pub phone_len: usize,
    /// Length of the token history before the first step.
    pub prompt_len: usize,
}

impl DecodeLoop {
    /// A loop that has taken no step yet.
    pub fn new(phone_len: usize, prompt_len: usize) -> (r: Self)
        ensures
            r.steps == 0,
            r.phone_len == phone_len,
            r.prompt_len == prompt_len,
    {
        DecodeLoop { steps: 0, phone_len, prompt_len }
    }

    /// Columns of the attention mask of the next step: the phonemes, the
    /// tokens before the first step, and one more per step.
    pub fn mask_columns(&self) -> (r: usize)
        requires
            self.phone_len + self.prompt_len + self.steps + 1 <= usize::MAX,
        ensures
            r == self.phone_len + self.prompt_len + self.steps + 1,
    {
        self.phone_len + self.prompt_len + self.steps + 1
    }

    /// Records the outputs of a step (see `step_outcome`).
    pub fn on_step(&mut self, sample: i64, logit: i64) -> (r: Step)
        requires
            old(self).steps < MAX_DECODE_STEPS,
        ensures
            r == step_outcome(old(self).steps as nat, sample, logit),
            final(self).steps == old(self).steps + 1,
            final(self).phone_len == old(self).phone_len,
            final(self).prompt_len == old(self).prompt_len,
            r == Step::Continue ==> final(self).steps < MAX_DECODE_STEPS,
    {
        self.steps = self.steps + 1;
        if sample == EOS_TOKEN || logit == EOS_TOKEN {
            Step::Done(self.steps)
        } else if self.steps >= MAX_DECODE_STEPS {
            Step::LimitExceeded
        } else {
            Step::Continue
        }
    }
}

/// The tokens handed to the vocoder: the token history with its last token
/// (the end token) set to 0, cut to its last `loop_idx` tokens.
pub open spec fn semantic_tokens(y: Seq<i64>, loop_idx: int) -> Seq<i64> {
    y.update(y.len() - 1, 0).subrange(y.len() - loop_idx, y.len() as int)
}

/// The tokens handed to the vocoder (see `semantic_tokens`).
pub fn pred_semantic(y: &Vec<i64>, loop_idx: usize) -> (r: Vec<i64>)
    requires
        y.len() > 0,
        loop_idx <= y.len(),
    ensures
        r@ == semantic_tokens(y@, loop_idx as int),
{
    let n = y.len();
    let start = n - loop_idx;
    let mut r: Vec<i64> = Vec::new();
    let mut i: usize = start;
    let ghost z = y@.update(n - 1, 0);
    assert(z.len() == n);
    while i < n
        invariant
            n == y.len(),
            z.len() == n,
            start <= i <= n,
            z == y@.update(n - 1, 0),
            r@ == z.subrange(start as int, i as int),
        decreases n - i,
    {
        let t = if i == n - 1 { 0 } else { y[i] };
        assert(t == z[i as int]);
        r.push(t);
        assert(z.subrange(start as int, i + 1) =~= z.subrange(start as int, i as int).push(z[i as int]));
        i += 1;
    }
    r
}

/// The length of the decoded sequence at the vocoder's rate: two frames per token.
pub fn y_length(loop_idx: usize) -> (r: u64)
    requires
        loop_idx <= MAX_DECODE_STEPS,
    ensures
        r == 2 * loop_idx,
{
    2 * loop_idx as u64
}

/// Frames of the 32 kHz reference audio of `n32` samples.
pub fn refer_frames(n32: usize) -> (r: usize)
    requires
        n32 >= HOP_LENGTH,
    ensures
        r == (n32 - HOP_LENGTH) / (HOP_LENGTH as int) + 1,
{
    (n32 - HOP_LENGTH) / HOP_LENGTH + 1
}

} // verus!
