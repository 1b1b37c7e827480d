//! Splitting long recordings into overlapping windows.
//!
//! The model was trained on clips of at most 35 seconds. A longer recording is
//! cut into windows of that size, preferably at a pause, and consecutive windows
//! share one second of audio so that a cut through a word loses nothing.
//!
//! How loud a frame is, is measured by the caller. A level is any number that
//! orders the frames by loudness: the bits of a non-negative float do.

use vstd::prelude::*;

verus! {

/// Samples per second of the audio that the windows are cut from.
pub const SAMPLE_RATE: usize = 16_000;

/// The longest window that the model is given.
pub const WINDOW_SAMPLES: usize = 35 * SAMPLE_RATE;

/// How much audio consecutive windows share.
pub const OVERLAP_SAMPLES: usize = SAMPLE_RATE;

/// How far before the end of a window a pause is looked for at first.
pub const SPLIT_SEARCH_SAMPLES: usize = WINDOW_SAMPLES / 4;

/// How far before the end of a window a pause is looked for at most.
pub const SPLIT_SEARCH_SAMPLES_WIDE: usize = WINDOW_SAMPLES / 2;

/// The length of the frames whose levels are compared.
pub const PAUSE_FRAME_SAMPLES: usize = SAMPLE_RATE / 50;

/// The distance from one frame to the next.
pub const PAUSE_FRAME_STEP: usize = PAUSE_FRAME_SAMPLES / 2;

/// The shortest window that a cut at a pause makes: the middle of the first frame of
/// the widest search, which is beyond half of the longest window.
pub const SHORTEST_CUT_SAMPLES: usize = WINDOW_SAMPLES - SPLIT_SEARCH_SAMPLES_WIDE
    + PAUSE_FRAME_SAMPLES / 2;

/// Whether a recording is too long to be transcribed in one piece.
pub fn requires_chunking(sample_count: usize) -> (r: bool)
    ensures
        r == (sample_count > WINDOW_SAMPLES),
        r == (sample_count > 560_000),
{
    sample_count > WINDOW_SAMPLES
}

/// Whether there is room to look for a pause before `target` in a recording of
/// `length` samples.
pub open spec fn searchable(length: int, target: int, search: int) -> bool {
    &&& target < length
    &&& search >= PAUSE_FRAME_SAMPLES * 2
    &&& target >= PAUSE_FRAME_SAMPLES * 2
}

/// Where the first frame of the search starts.
pub open spec fn first_frame(target: int, search: int) -> int {
    if target - search > PAUSE_FRAME_SAMPLES {
        target - search
    } else {
        PAUSE_FRAME_SAMPLES as int
    }
}

/// Where the frame with the given index starts.
pub open spec fn frame_start(target: int, search: int, index: int) -> int {
    first_frame(target, search) + index * PAUSE_FRAME_STEP
}

/// The starts of all the frames that lie between the first frame of the search
/// and `target`.
pub open spec fn frames(target: int, search: int) -> Seq<int> {
    Seq::new(
        ((target - PAUSE_FRAME_SAMPLES - first_frame(target, search)) / (PAUSE_FRAME_STEP as int)
            + 1) as nat,
        |i: int| frame_start(target, search, i),
    )
}

/// The starts of the frames to measure when a pause is looked for before
/// `target`, at most `search` samples back. There is none if there is no room.
pub fn pause_frames(length: usize, target: usize, search: usize) -> (starts: Vec<usize>)
    ensures
        searchable(length as int, target as int, search as int) ==> {
            &&& starts@.len() == frames(target as int, search as int).len()
            &&& starts@.len() > 0
            &&& forall|i: int|
                0 <= i < starts@.len() ==> (#[trigger] starts@[i]) == frames(
                    target as int,
                    search as int,
                )[i] && starts@[i] + PAUSE_FRAME_SAMPLES <= target
        },
        !searchable(length as int, target as int, search as int) ==> starts@.len() == 0,
{
    let mut starts: Vec<usize> = Vec::new();
    if target >= length || search < PAUSE_FRAME_SAMPLES * 2 || target < PAUSE_FRAME_SAMPLES * 2 {
        return starts;
    }
    let back: usize = target.saturating_sub(search);
    let lower: usize = if back > PAUSE_FRAME_SAMPLES {
        back
    } else {
        PAUSE_FRAME_SAMPLES
    };
    let upper: usize = target - PAUSE_FRAME_SAMPLES;
    let mut at: usize = lower;
    assert(lower == first_frame(target as int, search as int));
    loop
        invariant_except_break
            lower == first_frame(target as int, search as int),
            lower <= at <= upper,
            upper == target - PAUSE_FRAME_SAMPLES,
            at == frame_start(target as int, search as int, starts@.len() as int),
            forall|i: int|
                0 <= i < starts@.len() ==> (#[trigger] starts@[i]) == frame_start(
                    target as int,
                    search as int,
                    i,
                ) && starts@[i] <= upper,
        ensures
            starts@.len() > 0,
            starts@.last() <= upper,
            upper - starts@.last() < PAUSE_FRAME_STEP,
            forall|i: int|
                0 <= i < starts@.len() ==> (#[trigger] starts@[i]) == frame_start(
                    target as int,
                    search as int,
                    i,
                ) && starts@[i] <= upper,
        decreases upper - at,
    {
        starts.push(at);
        assert(starts@.len() * PAUSE_FRAME_STEP == (starts@.len() - 1) * PAUSE_FRAME_STEP
            + PAUSE_FRAME_STEP) by (nonlinear_arith)
            requires
                starts@.len() > 0,
        ;
        if upper - at < PAUSE_FRAME_STEP {
            break;
        }
        at = at + PAUSE_FRAME_STEP;
    }
    proof {
        lemma_frame_count(lower as int, upper as int, starts@.len() as int);
    }
    starts
}

proof fn lemma_frame_count(lower: int, upper: int, count: int)
    requires
        count > 0,
        lower + (count - 1) * PAUSE_FRAME_STEP <= upper,
        upper - (lower + (count - 1) * PAUSE_FRAME_STEP) < PAUSE_FRAME_STEP,
    ensures
        (upper - lower) / (PAUSE_FRAME_STEP as int) + 1 == count,
{
    let step = PAUSE_FRAME_STEP as int;
    let rest = upper - lower - (count - 1) * step;
    vstd::arithmetic::div_mod::lemma_fundamental_div_mod_converse(
        upper - lower,
        step,
        count - 1,
        rest,
    );
}

/// Whether the level at `index` is the lowest, and the first that is so low.
pub open spec fn is_quietest(levels: Seq<u32>, index: int) -> bool {
    &&& 0 <= index < levels.len()
    &&& forall|i: int| 0 <= i < levels.len() ==> levels[index] <= #[trigger] levels[i]
    &&& forall|i: int| 0 <= i < index ==> levels[index] < #[trigger] levels[i]
}

/// The quietest of the measured frames; the first of them if several are.
pub fn quietest(levels: &[u32]) -> (r: Option<usize>)
    ensures
        r is None <==> levels@.len() == 0,
        r matches Some(index) ==> is_quietest(levels@, index as int),
{
    if levels.len() == 0 {
        return None;
    }
    let mut best: usize = 0;
    let mut i: usize = 1;
    while i < levels.len()
        invariant
            best < i <= levels@.len(),
            forall|j: int| 0 <= j < i ==> levels@[best as int] <= #[trigger] levels@[j],
            forall|j: int| 0 <= j < best ==> levels@[best as int] < #[trigger] levels@[j],
        decreases levels@.len() - i,
    {
        if levels[i] < levels[best] {
            best = i;
        }
        i = i + 1;
    }
    Some(best)
}

/// Where to split a recording of `length` samples: in the middle of the quietest
/// frame before `target`, provided that it is quiet enough to be a pause.
///
/// `levels` are the levels of the frames of [`pause_frames`], and `is_pause` says
/// whether the quietest of them is quiet enough.
pub fn pick_split(
    length: usize,
    target: usize,
    search: usize,
    levels: &[u32],
    is_pause: bool,
) -> (r: Option<usize>)
    requires
        searchable(length as int, target as int, search as int) ==> levels@.len() == frames(
            target as int,
            search as int,
        ).len(),
    ensures
        r is Some <==> searchable(length as int, target as int, search as int) && is_pause,
        r matches Some(split) ==> {
            &&& exists|index: int|
                #![trigger is_quietest(levels@, index)]
                is_quietest(levels@, index) && split == frame_start(
                    target as int,
                    search as int,
                    index,
                ) + PAUSE_FRAME_SAMPLES / 2
            &&& target - search + PAUSE_FRAME_SAMPLES / 2 <= split < target
            &&& exists|index: int|
                #![trigger levels@[index]]
                {
                    &&& 0 <= index < levels@.len()
                    &&& forall|i: int| 0 <= i < levels@.len() ==> levels@[index] <= levels@[i]
                    &&& forall|i: int| 0 <= i < index ==> levels@[index] < levels@[i]
                    &&& split == 160 + 160 * index + if target - search > 320 {
                        target - search
                    } else {
                        320
                    }
                }
        },
{
    let starts = pause_frames(length, target, search);
    if starts.len() == 0 || !is_pause {
        return None;
    }
    match quietest(levels) {
        Some(index) => {
            assert(is_quietest(levels@, index as int));
            assert(index * PAUSE_FRAME_STEP == 160 * index) by (nonlinear_arith)
                requires
                    PAUSE_FRAME_STEP == 160,
            ;
            assert(starts@[index as int] == frame_start(target as int, search as int, index as int));
            let split: usize = starts[index] + PAUSE_FRAME_SAMPLES / 2;
            assert(split == 160 + 160 * index + first_frame(target as int, search as int));
            let ghost at = index as int;
            assert(levels@[at] <= levels@[0]);
            Some(split)
        },
        None => None,
    }
}

/// Whether `windows` are a proper beginning of a split of `total` samples: the
/// first starts at the first sample, none is longer than the model takes, each
/// starts one overlap before the end of the one before it, and all but the last are
/// at least as long as a cut at a pause makes them.
pub open spec fn chained(total: int, windows: Seq<(usize, usize)>) -> bool {
    &&& windows.len() > 0 ==> windows[0].0 == 0
    &&& forall|i: int|
        0 <= i < windows.len() ==> (#[trigger] windows[i]).0 <= windows[i].1 <= total
            && windows[i].1 - windows[i].0 <= WINDOW_SAMPLES
    &&& forall|i: int, j: int|
        #![trigger windows[i], windows[j]]
        0 <= i && j == i + 1 && j < windows.len() ==> windows[j].0 == windows[i].1
            - OVERLAP_SAMPLES
    &&& forall|i: int|
        0 <= i < windows.len() - 1 ==> (#[trigger] windows[i]).1 - windows[i].0
            >= SHORTEST_CUT_SAMPLES
}

/// Where the window behind `windows` starts.
pub open spec fn next_start(windows: Seq<(usize, usize)>) -> int {
    if windows.len() == 0 {
        0
    } else {
        windows.last().1 - OVERLAP_SAMPLES
    }
}

/// A pause that the planner wants to know of: `length` samples from `start` on
/// are to be searched for a pause at most `search` samples before `target`.
#[derive(Clone, Copy)]
pub struct PauseSearch {
    pub start: usize,
    pub length: usize,
    pub target: usize,
    pub search: usize,
}

/// What is planned of a split, as far as the pauses are known.
pub struct PlanState {
    /// How many samples are split.
    pub total: int,
    /// The windows found so far, each as its first sample and the one behind its
    /// last.
    pub windows: Seq<(usize, usize)>,
    /// Whether the narrow search for the next pause has failed already.
    pub wide: bool,
}

impl PlanState {
    /// Whether the windows cover the whole recording.
    pub open spec fn finished(self) -> bool {
        self.windows.len() > 0 && self.windows.last().1 == self.total
    }

    /// The plan with what is left of the recording as its last window, if that
    /// fits in one.
    pub open spec fn closed_up(self) -> PlanState {
        let start = next_start(self.windows);
        if self.total - start <= WINDOW_SAMPLES {
            PlanState {
                windows: self.windows.push((start as usize, self.total as usize)),
                wide: false,
                ..self
            }
        } else {
            self
        }
    }

    /// The plan with a next window of `length` samples.
    pub open spec fn with_window(self, length: int) -> PlanState {
        let start = next_start(self.windows);
        PlanState {
            windows: self.windows.push((start as usize, (start + length) as usize)),
            wide: false,
            ..self
        }.closed_up()
    }

    /// The plan after the answer to its search for a pause: a pause ends the
    /// window, the first failure widens the search, the second makes the window
    /// as long as it can be.
    pub open spec fn answered(self, split: Option<usize>) -> PlanState {
        match split {
            Some(length) => self.with_window(length as int),
            None => if self.wide {
                self.with_window(WINDOW_SAMPLES as int)
            } else {
                PlanState { wide: true, ..self }
            },
        }
    }
}

/// A split of a recording into windows, planned pause by pause.
pub struct WindowPlan {
    total: usize,
    windows: Vec<(usize, usize)>,
    wide: bool,
}

impl View for WindowPlan {
    type V = PlanState;

    closed spec fn view(&self) -> PlanState {
        PlanState { total: self.total as int, windows: self.windows@, wide: self.wide }
    }
}

impl WindowPlan {
    /// What holds of every plan: the windows are chained, and unless they cover
    /// everything, more is left than fits in one window.
    pub open spec fn well_formed(&self) -> bool {
        &&& 0 <= self@.total <= usize::MAX
        &&& chained(self@.total, self@.windows)
        &&& self@.finished() || {
            &&& self@.total - next_start(self@.windows) > WINDOW_SAMPLES
            &&& self@.windows.len() > 0 ==> self@.windows.last().1 - self@.windows.last().0
                >= SHORTEST_CUT_SAMPLES
        }
    }

    /// Starts a split of `total` samples. A recording that fits in one window is
    /// not split.
    pub fn new(total: usize) -> (plan: WindowPlan)
        ensures
            plan.well_formed(),
            plan@ == (PlanState { total: total as int, windows: seq![], wide: false }).closed_up(),
    {
        let mut windows: Vec<(usize, usize)> = Vec::new();
        if !requires_chunking(total) {
            windows.push((0, total));
        }
        let plan = WindowPlan { total, windows, wide: false };
        assert(plan@.windows =~= (PlanState {
            total: total as int,
            windows: seq![],
            wide: false,
        }).closed_up().windows);
        plan
    }

    /// The pause to look for next, or none if the split is finished.
    pub fn pending(&self) -> (r: Option<PauseSearch>)
        requires
            self.well_formed(),
        ensures
            r is None <==> self@.finished(),
            r matches Some(asked) ==> {
                &&& asked.start == next_start(self@.windows)
                &&& asked.start + asked.length == self@.total
                &&& asked.target == WINDOW_SAMPLES < asked.length
                &&& asked.search == if self@.wide {
                    SPLIT_SEARCH_SAMPLES_WIDE
                } else {
                    SPLIT_SEARCH_SAMPLES
                }
                &&& asked.start == if self@.windows.len() == 0 {
                    0
                } else {
                    self@.windows.last().1 - 16_000
                }
                &&& asked.target == 560_000
                &&& asked.search == if self@.wide {
                    280_000int
                } else {
                    140_000
                }
            },
    {
        let count: usize = self.windows.len();
        if count > 0 && self.windows[count - 1].1 == self.total {
            return None;
        }
        let start: usize = if count == 0 {
            0
        } else {
            self.windows[count - 1].1 - OVERLAP_SAMPLES
        };
        let search: usize = if self.wide {
            SPLIT_SEARCH_SAMPLES_WIDE
        } else {
            SPLIT_SEARCH_SAMPLES
        };
        Some(PauseSearch { start, length: self.total - start, target: WINDOW_SAMPLES, search })
    }

    /// Takes the answer to [`Self::pending`]: how many samples from the start of
    /// the window on the pause lies, or that there is none. Each answer brings
    /// the plan forward: it widens the search, or it leaves less to split.
    pub fn answer(&mut self, split: Option<usize>)
        requires
            old(self).well_formed(),
            !old(self)@.finished(),
            split matches Some(length) ==> SHORTEST_CUT_SAMPLES <= length <= WINDOW_SAMPLES,
        ensures
            final(self).well_formed(),
            final(self)@ == old(self)@.answered(split),
            final(self)@.total == old(self)@.total,
            final(self)@.windows.take(old(self)@.windows.len() as int) == old(self)@.windows,
            split matches Some(length) ==> {
                let start = if old(self)@.windows.len() == 0 {
                    0
                } else {
                    old(self)@.windows.last().1 - 16_000
                };
                &&& final(self)@.windows.len() > old(self)@.windows.len()
                &&& final(self)@.windows[old(self)@.windows.len() as int].0 == start
                &&& final(self)@.windows[old(self)@.windows.len() as int].1 == start + length
            },
            final(self)@.finished() || next_start(final(self)@.windows) > next_start(
                old(self)@.windows,
            ) || (final(self)@.wide && !old(self)@.wide),
    {
        let length: usize = match split {
            Some(length) => length,
            None => {
                if !self.wide {
                    self.wide = true;
                    assert(self@.windows.take(self@.windows.len() as int) =~= self@.windows);
                    return;
                }
                WINDOW_SAMPLES
            },
        };
        let count: usize = self.windows.len();
        let start: usize = if count == 0 {
            0
        } else {
            self.windows[count - 1].1 - OVERLAP_SAMPLES
        };
        let ghost before = self.windows@;
        self.wide = false;
        self.windows.push((start, start + length));
        let next: usize = start + length - OVERLAP_SAMPLES;
        let ghost middle = self.windows@;
        proof {
            lemma_chain_grows(self@.total, before, middle.last());
            assert(middle =~= before.push(middle.last()));
        }
        if !requires_chunking(self.total - next) {
            self.windows.push((next, self.total));
            proof {
                lemma_chain_grows(self@.total, middle, self.windows@.last());
                assert(self.windows@ =~= middle.push(self.windows@.last()));
            }
        }
        assert(self@.windows == old(self)@.answered(split).windows);
        assert(self@.windows.take(before.len() as int) =~= before);
    }

    /// The windows, each as its first sample and the one behind its last.
    pub fn windows(&self) -> (r: &Vec<(usize, usize)>)
        ensures
            r@ == self@.windows,
    {
        &self.windows
    }
}

proof fn lemma_chain_grows(total: int, windows: Seq<(usize, usize)>, next: (usize, usize))
    requires
        chained(total, windows),
        windows.len() > 0 ==> windows.last().1 - windows.last().0 >= SHORTEST_CUT_SAMPLES,
        next.0 == next_start(windows),
        next.0 <= next.1 <= total,
        next.1 - next.0 <= WINDOW_SAMPLES,
    ensures
        chained(total, windows.push(next)),
{
    let grown = windows.push(next);
    assert(forall|i: int| 0 <= i < windows.len() ==> grown[i] == windows[i]);
}

/// The windows of a finished split leave no sample out.
pub proof fn law_windows_cover_the_recording(plan: WindowPlan, sample: int) -> (i: int)
    requires
        plan.well_formed(),
        plan@.finished(),
        0 <= sample < plan@.total,
    ensures
        0 <= i < plan@.windows.len(),
        plan@.windows[i].0 <= sample < plan@.windows[i].1,
{
    lemma_chain_covers(plan@.total, plan@.windows, sample)
}

proof fn lemma_chain_covers(total: int, windows: Seq<(usize, usize)>, sample: int) -> (i: int)
    requires
        chained(total, windows),
        windows.len() > 0,
        0 <= sample < windows.last().1,
    ensures
        0 <= i < windows.len(),
        windows[i].0 <= sample < windows[i].1,
    decreases windows.len(),
{
    let last = windows.len() - 1;
    if windows[last].0 <= sample {
        last
    } else {
        let shorter = windows.drop_last();
        assert(forall|i: int| 0 <= i < shorter.len() ==> shorter[i] == windows[i]);
        assert(windows[last].0 == windows[last - 1].1 - OVERLAP_SAMPLES);
        lemma_chain_covers(total, shorter, sample)
    }
}

/// Consecutive windows of a split share exactly one overlap. No window is longer than
/// the model takes, and none but the last is shorter than half of that.
pub proof fn law_windows_are_bounded_and_overlap(plan: WindowPlan, i: int)
    requires
        plan.well_formed(),
        0 <= i < plan@.windows.len(),
    ensures
        plan@.windows[i].1 - plan@.windows[i].0 <= WINDOW_SAMPLES,
        i < plan@.windows.len() - 1 ==> plan@.windows[i].1 - plan@.windows[i].0
            >= SHORTEST_CUT_SAMPLES > WINDOW_SAMPLES / 2 > OVERLAP_SAMPLES,
        i > 0 ==> plan@.windows[i - 1].1 - plan@.windows[i].0 == OVERLAP_SAMPLES,
{
}

/// A recording that fits in one window stays in one piece.
pub proof fn law_short_recordings_stay_whole(total: int)
    requires
        0 <= total <= WINDOW_SAMPLES,
    ensures
        (PlanState { total, windows: seq![], wide: false }).closed_up().windows == seq![
            (0usize, total as usize),
        ],
        (PlanState { total, windows: seq![], wide: false }).closed_up().finished(),
{
    assert((PlanState { total, windows: seq![], wide: false }).closed_up().windows =~= seq![
        (0usize, total as usize),
    ]);
}

/// A split that [`pick_split`] finds for a pending search is an answer that the plan
/// takes: it never makes a window shorter than half of the longest.
pub proof fn law_found_pauses_are_answers(asked: PauseSearch, split: int)
    requires
        asked.target == WINDOW_SAMPLES,
        asked.search == SPLIT_SEARCH_SAMPLES || asked.search == SPLIT_SEARCH_SAMPLES_WIDE,
        asked.target - asked.search + PAUSE_FRAME_SAMPLES / 2 <= split < asked.target,
    ensures
        split >= WINDOW_SAMPLES - SPLIT_SEARCH_SAMPLES_WIDE + PAUSE_FRAME_SAMPLES / 2,
        SHORTEST_CUT_SAMPLES <= split <= WINDOW_SAMPLES,
{
}

/// Every window ends where its pause is. Whatever windows there are already, an answer
/// leaves them as they are. A pause ends the next window, which starts a second before
/// the end of the last one, at the pause; without one, the search is widened first, and
/// then the window is as long as it can be. If what is left then fits in one window, it
/// is the last; otherwise nothing else is added.
pub proof fn law_every_answer_ends_its_window(plan: WindowPlan, split: Option<usize>)
    requires
        plan.well_formed(),
        !plan@.finished(),
        split matches Some(length) ==> SHORTEST_CUT_SAMPLES <= length <= 560_000,
    ensures
        ({
            let old = plan@.windows;
            let new = plan@.answered(split).windows;
            let start = if old.len() == 0 {
                0
            } else {
                old.last().1 - 16_000
            };
            let length = match split {
                Some(length) => length as int,
                None => 560_000,
            };
            let left = plan@.total - (start + length - 16_000);
            &&& plan@.answered(split).total == plan@.total
            &&& new.take(old.len() as int) == old
            &&& split is None && !plan@.wide ==> new == old && plan@.answered(split).wide
            &&& split is Some || plan@.wide ==> {
                &&& !plan@.answered(split).wide
                &&& new[old.len() as int].0 == start
                &&& new[old.len() as int].1 == start + length
                &&& left > 560_000 ==> new.len() == old.len() + 1
                &&& left <= 560_000 ==> {
                    &&& new.len() == old.len() + 2
                    &&& new.last().0 == start + length - 16_000
                    &&& new.last().1 == plan@.total
                }
            }
        }),
{
    let old = plan@.windows;
    let new = plan@.answered(split).windows;
    assert(new.take(old.len() as int) =~= old);
}

/// A recording of up to thirty-five seconds is one window, and of a longer one nothing
/// is cut before a pause has been looked for.
pub proof fn law_a_plan_starts_with_all_or_nothing(total: usize)
    ensures
        ({
            let start = (PlanState { total: total as int, windows: seq![], wide: false }).closed_up();
            &&& start.total == total
            &&& !start.wide
            &&& total <= 560_000 ==> start.windows == seq![(0usize, total)]
            &&& total > 560_000 ==> start.windows.len() == 0
        }),
{
    let start = (PlanState { total: total as int, windows: seq![], wide: false }).closed_up();
    assert(total <= 560_000 ==> start.windows =~= seq![(0usize, total)]);
}

/// A plan is finished exactly when its last window ends with the recording.
pub proof fn law_finished_at_the_end(state: PlanState)
    ensures
        state.finished() <==> state.windows.len() > 0 && state.windows[state.windows.len() - 1].1
            == state.total,
{
}

/// There is room for a search if the target lies within the recording, and two frames
/// fit before it and in the search.
pub proof fn law_room_for_a_search(length: int, target: int, search: int)
    ensures
        searchable(length, target, search) <==> target < length && search >= 640 && target >= 640,
{
}

/// The frames of a search begin as far back as the search reaches, but with a frame's
/// length before them at least. They follow each other at half a frame, twenty
/// milliseconds each, and every one that ends before the target is there.
pub proof fn law_frames_fill_the_search(target: int, search: int, i: int)
    requires
        target >= 640,
        search >= 640,
    ensures
        frames(target, search).len() > 0,
        frames(target, search)[0] == if target - search > 320 {
            target - search
        } else {
            320
        },
        0 <= i < frames(target, search).len() ==> frames(target, search)[i] == frames(
            target,
            search,
        )[0] + 160 * i,
        frames(target, search).last() + 320 <= target < frames(target, search).last() + 160 + 320,
{
    let step = PAUSE_FRAME_STEP as int;
    let room = target - PAUSE_FRAME_SAMPLES - first_frame(target, search);
    let count = room / step + 1;
    assert(step == 160);
    vstd::arithmetic::div_mod::lemma_fundamental_div_mod(room, step);
    assert(room / step >= 0) by (nonlinear_arith)
        requires
            room >= 0,
            step == 160,
    ;
    assert(frames(target, search).len() == count);
    assert((count - 1) * step == step * (room / step)) by (nonlinear_arith)
        requires
            count == room / step + 1,
    ;
    assert(i * step == 160 * i) by (nonlinear_arith)
        requires
            step == 160,
    ;
    assert(0 * step == 0);
}

/// The frame that is split is the quietest: none is quieter, and none of those before
/// it is as quiet.
pub proof fn law_quietest_frame_is_split(levels: Seq<u32>, index: int, other: int)
    requires
        is_quietest(levels, index),
        0 <= other < levels.len(),
    ensures
        0 <= index < levels.len(),
        levels[index] <= levels[other],
        other < index ==> levels[index] < levels[other],
{
}

/// Answering a search ends the next window where the pause is, whichever window it is:
/// the windows before it stay, it starts a second before the end of the last one, and
/// it is as long as the answer says. Without a pause, the first answer widens the
/// search, and the second makes the window as long as it can be.
pub proof fn law_answers_set_the_windows(plan: &mut WindowPlan, split: Option<usize>)
    requires
        old(plan).well_formed(),
        !old(plan)@.finished(),
        split matches Some(length) ==> SHORTEST_CUT_SAMPLES <= length <= 560_000,
        call_ensures(WindowPlan::answer, (plan, split), ()),
    ensures
        ({
            let count = old(plan)@.windows.len() as int;
            let start = if count == 0 {
                0
            } else {
                old(plan)@.windows[count - 1].1 - 16_000
            };
            let end = start + match split {
                Some(length) => length as int,
                None => 560_000,
            };
            let new = final(plan)@.windows;
            &&& final(plan)@.total == old(plan)@.total
            &&& new.take(count) == old(plan)@.windows
            &&& split is None && !old(plan)@.wide ==> new.len() == count && final(plan)@.wide
            &&& split is Some || old(plan)@.wide ==> {
                &&& !final(plan)@.wide
                &&& new[count].0 == start
                &&& new[count].1 == end
                &&& old(plan)@.total - (end - 16_000) > 560_000 ==> new.len() == count + 1
                &&& old(plan)@.total - (end - 16_000) <= 560_000 ==> {
                    &&& new.len() == count + 2
                    &&& new[count + 1].0 == end - 16_000
                    &&& new[count + 1].1 == old(plan)@.total
                }
            }
        }),
{
    law_every_answer_ends_its_window(*old(plan), split);
}

/// What is looked for next is a pause before the end of the longest window that can
/// start a second before the end of the last one, in what is left of the recording;
/// first in its last quarter, and then in its last half.
pub proof fn law_pauses_are_looked_for_near_the_end(plan: WindowPlan, asked: Option<PauseSearch>)
    requires
        plan.well_formed(),
        call_ensures(WindowPlan::pending, (&plan,), asked),
    ensures
        asked is None <==> plan@.windows.len() > 0 && plan@.windows.last().1 == plan@.total,
        asked matches Some(asked) ==> {
            &&& asked.start == if plan@.windows.len() == 0 {
                0
            } else {
                plan@.windows.last().1 - 16_000
            }
            &&& asked.start + asked.length == plan@.total
            &&& asked.target == 560_000
            &&& asked.search == if plan@.wide {
                280_000int
            } else {
                140_000
            }
        },
{
}

/// A recording is split exactly if it is longer than thirty-five seconds.
pub proof fn law_long_recordings_are_split(sample_count: usize, split: bool)
    requires
        call_ensures(requires_chunking, (sample_count,), split),
    ensures
        split <==> sample_count > 35 * 16_000,
{
}

/// A plan begins with the whole recording, if that is no longer than thirty-five
/// seconds, and with nothing otherwise; its windows are those that were planned.
pub proof fn law_plans_begin_with_all_or_nothing(
    total: usize,
    plan: WindowPlan,
    windows: &Vec<(usize, usize)>,
)
    requires
        call_ensures(WindowPlan::new, (total,), plan),
        call_ensures(WindowPlan::windows, (&plan,), windows),
    ensures
        plan.well_formed(),
        plan@.total == total,
        !plan@.wide,
        total <= 560_000 ==> windows@ == seq![(0usize, total)],
        total > 560_000 ==> windows@.len() == 0,
{
    law_a_plan_starts_with_all_or_nothing(total);
}

/// The frames that are measured lie 160 samples apart and are 320 long. They begin where
/// the search does, but not before the 320th sample, and go up to the target; there is
/// none where there is no room for two.
pub proof fn law_frames_are_measured_up_to_the_target(
    length: usize,
    target: usize,
    search: usize,
    starts: Vec<usize>,
    i: int,
)
    requires
        call_ensures(pause_frames, (length, target, search), starts),
    ensures
        starts@.len() > 0 <==> target < length && search >= 640 && target >= 640,
        starts@.len() > 0 ==> {
            &&& starts@[0] == if target - search > 320 {
                target - search
            } else {
                320
            }
            &&& 0 <= i < starts@.len() ==> starts@[i] == starts@[0] + 160 * i
            &&& starts@.last() + 320 <= target < starts@.last() + 480
        },
{
    if starts@.len() > 0 {
        law_frames_fill_the_search(target as int, search as int, i);
    }
}

/// A split lies in the middle of the quietest frame, the first if several are, and there
/// is one exactly if there is room for a search and that frame is quiet enough.
pub proof fn law_splits_lie_in_the_quietest_frame(
    length: usize,
    target: usize,
    search: usize,
    levels: &[u32],
    is_pause: bool,
    r: Option<usize>,
) -> (index: int)
    requires
        searchable(length as int, target as int, search as int) ==> levels@.len() == frames(
            target as int,
            search as int,
        ).len(),
        call_ensures(pick_split, (length, target, search, levels, is_pause), r),
    ensures
        r is Some <==> target < length && search >= 640 && target >= 640 && is_pause,
        r matches Some(split) ==> {
            &&& 0 <= index < levels@.len()
            &&& forall|i: int| 0 <= i < levels@.len() ==> levels@[index] <= #[trigger] levels@[i]
            &&& forall|i: int| 0 <= i < index ==> levels@[index] < #[trigger] levels@[i]
            &&& split == 160 + 160 * index + if target - search > 320 {
                target - search
            } else {
                320
            }
        },
{
    match r {
        Some(split) => {
            let index = choose|index: int|
                #![trigger is_quietest(levels@, index)]
                is_quietest(levels@, index) && split == frame_start(
                    target as int,
                    search as int,
                    index,
                ) + PAUSE_FRAME_SAMPLES / 2;
            assert(index * PAUSE_FRAME_STEP == 160 * index) by (nonlinear_arith)
                requires
                    PAUSE_FRAME_STEP == 160,
            ;
            index
        },
        None => 0,
    }
}

} // verus!
