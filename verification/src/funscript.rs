//! The funscript timeline document: raw actions as authored, fixups, the
//! per-axis sub-scripts of a multi-axis file, and conversion into the
//! canonical normalised form the tracker consumes.

use vstd::prelude::*;

use crate::axis::{spec_kind_of_tcode_name, AxisKind};
use crate::movement::POSITION_SCALE;
use crate::tracker::{actions_in_scale, actions_sorted, actions_wf, NormalisedAction};
use crate::vecmap::{lemma_lookup_insert, spec_lookup, VecMap};

verus! {

/// One raw datapoint on the curve a funscript describes.
#[derive(Copy, Clone, Debug, PartialEq, Eq, Structural)]
pub struct FunscriptAction {
    /// Timestamp in milliseconds relative to the start of the content.
    pub at: u32,
    /// The position of the movement at this point in time, in the file's
    /// own raw units (typically 0 to 100).
    pub pos: u32,
}

/// One extra axis bundled inside a multi-axis funscript.
#[derive(Clone, Debug)]
pub struct FunscriptAxis {
    /// Wire name of the axis.
    pub id: String,
    /// That axis's actions, sorted by timestamp.
    pub actions: Vec<FunscriptAction>,
}

/// A funscript document, as decoded from its JSON form: how one axis (and
/// possibly bundled extra axes) moves throughout time.
#[derive(Clone, Debug)]
pub struct Funscript {
    /// List of actions, sorted by timestamp.
    pub actions: Vec<FunscriptAction>,
    /// Whether the movement is inverted.
    pub inverted: bool,
    /// The maximum raw value of `pos`; zero when the file leaves it unset.
    pub range: u32,
    /// The extra axes of a multi-axis file; empty on single-axis files.
    pub axes: Vec<FunscriptAxis>,
}

/// The range [`Funscript::fixup`] assigns when the file left it unset: the
/// largest `pos` in the file, or 100, whichever is higher.
pub open spec fn spec_range_of(s: Seq<FunscriptAction>) -> int
    decreases s.len(),
{
    if s.len() == 0 {
        100
    } else {
        let r = spec_range_of(s.drop_last());
        if s.last().pos > r {
            s.last().pos as int
        } else {
            r
        }
    }
}

impl Funscript {
    /// Fills in a value for `range` where the file left it unset (zero):
    /// the highest `pos` present, floored at 100. A set range is kept.
    pub fn fixup(&mut self)
        ensures
            final(self).range == if old(self).range == 0 {
                spec_range_of(old(self).actions@)
            } else {
                old(self).range as int
            },
            final(self).actions == old(self).actions,
            final(self).inverted == old(self).inverted,
            final(self).axes == old(self).axes,
    {
        if self.range != 0 {
            return ;
        }
        let n = self.actions.len();
        let mut best: u32 = 100;
        let mut i: usize = 0;
        proof {
            assert(self.actions@.take(0) =~= Seq::<FunscriptAction>::empty());
        }
        while i < n
            invariant
                0 <= i <= n,
                n == self.actions@.len(),
                best == spec_range_of(self.actions@.take(i as int)),
                best >= 100,
            decreases n - i,
        {
            proof {
                assert(self.actions@.take(i as int + 1).drop_last() =~= self.actions@.take(
                    i as int,
                ));
            }
            if self.actions[i].pos > best {
                best = self.actions[i].pos;
            }
            i += 1;
        }
        proof {
            assert(self.actions@.take(n as int) =~= self.actions@);
        }
        self.range = best;
    }
}

/// The canonical position for a raw funscript position: the raw value is
/// read as hundredths of full scale (capped at full scale), and inversion
/// mirrors it.
pub open spec fn spec_normalise_pos(inverted: bool, pos: u32) -> u32 {
    let scaled = if pos * 10000 > POSITION_SCALE {
        POSITION_SCALE as int
    } else {
        pos * 10000
    };
    if inverted {
        (POSITION_SCALE - scaled) as u32
    } else {
        scaled as u32
    }
}

/// The normalised form of a whole action list.
pub open spec fn spec_normalised(inverted: bool, s: Seq<FunscriptAction>) -> Seq<NormalisedAction> {
    s.map_values(
        |a: FunscriptAction| NormalisedAction {
            at: a.at,
            norm_pos: spec_normalise_pos(inverted, a.pos),
        },
    )
}

/// Extracts the list of normalised actions from a funscript: timestamps are
/// kept, positions go to millionths of full scale, and the inverted flag is
/// resolved away. A timestamp-sorted input yields a well-formed list.
pub fn normalised_from_funscript(funscript: &Funscript) -> (r: Vec<NormalisedAction>)
    ensures
        r@ == spec_normalised(funscript.inverted, funscript.actions@),
        actions_in_scale(r@),
        funscript_actions_sorted(funscript.actions@) ==> actions_wf(r@),
{
    let inverted = funscript.inverted;
    let n = funscript.actions.len();
    let mut out: Vec<NormalisedAction> = Vec::new();
    let mut i: usize = 0;
    while i < n
        invariant
            0 <= i <= n,
            n == funscript.actions@.len(),
            inverted == funscript.inverted,
            out@ =~= spec_normalised(inverted, funscript.actions@.take(i as int)),
            actions_in_scale(out@),
            forall|j: int|
                0 <= j < i ==> (#[trigger] out@[j]).at == funscript.actions@[j].at,
        decreases n - i,
    {
        let a = funscript.actions[i];
        let scaled64: u64 = a.pos as u64 * 10000;
        let scaled: u32 = if scaled64 > POSITION_SCALE as u64 {
            POSITION_SCALE
        } else {
            scaled64 as u32
        };
        let norm_pos: u32 = if inverted {
            POSITION_SCALE - scaled
        } else {
            scaled
        };
        out.push(NormalisedAction { at: a.at, norm_pos });
        proof {
            assert(funscript.actions@.take(i as int + 1).drop_last() =~= funscript.actions@.take(
                i as int,
            ));
            assert(out@ =~= spec_normalised(inverted, funscript.actions@.take(i as int + 1)));
        }
        i += 1;
    }
    proof {
        assert(funscript.actions@.take(n as int) =~= funscript.actions@);
        if funscript_actions_sorted(funscript.actions@) {
            assert forall|j: int, l: int| 0 <= j < l < out@.len() implies (#[trigger] out@[j]).at
                <= (#[trigger] out@[l]).at by {
                assert(funscript.actions@[j].at <= funscript.actions@[l].at);
            }
        }
    }
    out
}

/// Whether the raw actions are sorted by timestamp, the order a decoded
/// file is assumed to come in.
pub open spec fn funscript_actions_sorted(s: Seq<FunscriptAction>) -> bool {
    forall|i: int, j: int| 0 <= i < j < s.len() ==> (#[trigger] s[i]).at <= (#[trigger] s[j]).at
}

/// Position `i` names the last axis entry whose wire name means `k`.
pub open spec fn last_axis_with_kind(axes: Seq<FunscriptAxis>, k: AxisKind, i: int) -> bool {
    &&& 0 <= i < axes.len()
    &&& spec_kind_of_tcode_name(axes[i].id@) == Some(k)
    &&& forall|j: int| i < j < axes.len() ==> spec_kind_of_tcode_name((#[trigger] axes[j]).id@) != Some(k)
}

impl Funscript {
    /// Splits the bundled extra axes of a multi-axis file into standalone
    /// funscripts, keyed by axis kind (in [`crate::axis::spec_kind_rank`]
    /// order). Axes with unrecognised wire names are dropped; when one kind
    /// occurs twice, the later entry wins.
    pub fn get_axes_funscripts(&mut self) -> (r: VecMap<(AxisKind, Funscript)>)
        ensures
            *final(self) == *old(self),
            r.wf(),
            forall|k: AxisKind|
                match spec_lookup(r.view(), #[trigger] crate::axis::spec_kind_rank(k)) {
                    Some(entry) => entry.0 == k && entry.1.inverted == old(self).inverted
                        && entry.1.range == old(self).range && entry.1.axes@.len() == 0 && (
                    exists|i: int|
                        last_axis_with_kind(old(self).axes@, k, i) && entry.1.actions@ == old(
                            self,
                        ).axes@[i].actions@),
                    None => forall|i: int|
                        0 <= i < old(self).axes@.len() ==> spec_kind_of_tcode_name(
                            (#[trigger] old(self).axes@[i]).id@,
                        ) != Some(k),
                },
    {
        let mut r: VecMap<(AxisKind, Funscript)> = VecMap::new();
        let n = self.axes.len();
        let mut i: usize = 0;
        while i < n
            invariant
                0 <= i <= n,
                *self == *old(self),
                n == self.axes@.len(),
                r.wf(),
                forall|k: AxisKind|
                    match spec_lookup(r.view(), #[trigger] crate::axis::spec_kind_rank(k)) {
                        Some(entry) => entry.0 == k && entry.1.inverted == self.inverted
                            && entry.1.range == self.range && entry.1.axes@.len() == 0 && (
                        exists|l: int|
                            last_axis_with_kind(self.axes@.take(i as int), k, l)
                                && entry.1.actions@ == self.axes@[l].actions@),
                        None => forall|l: int|
                            0 <= l < i ==> spec_kind_of_tcode_name(
                                (#[trigger] self.axes@[l]).id@,
                            ) != Some(k),
                    },
            decreases n - i,
        {
            let ghost r_before = r.view();
            let axis = &self.axes[i];
            match AxisKind::try_from_tcode_axis_name(axis.id.as_str()) {
                Ok(kind) => {
                    let script = Funscript {
                        actions: axis.actions.clone(),
                        inverted: self.inverted,
                        range: self.range,
                        axes: Vec::new(),
                    };
                    proof {
                        assert(script.actions@ =~= self.axes@[i as int].actions@);
                    }
                    r.insert(crate::axis::kind_rank(kind), (kind, script));
                    proof {
                        assert forall|k: AxisKind| true implies match spec_lookup(
                            r.view(),
                            #[trigger] crate::axis::spec_kind_rank(k),
                        ) {
                            Some(entry) => entry.0 == k && entry.1.inverted == self.inverted
                                && entry.1.range == self.range && entry.1.axes@.len() == 0 && (
                            exists|l: int|
                                last_axis_with_kind(self.axes@.take(i as int + 1), k, l)
                                    && entry.1.actions@ == self.axes@[l].actions@),
                            None => forall|l: int|
                                0 <= l < i + 1 ==> spec_kind_of_tcode_name(
                                    (#[trigger] self.axes@[l]).id@,
                                ) != Some(k),
                        } by {
                            lemma_lookup_insert(
                                r_before,
                                crate::axis::spec_kind_rank(kind),
                                (kind, script),
                                crate::axis::spec_kind_rank(k),
                            );
                            crate::axis::lemma_kind_rank_injective(k, kind);
                            if k == kind {
                                assert(last_axis_with_kind(
                                    self.axes@.take(i as int + 1),
                                    k,
                                    i as int,
                                ));
                            } else {
                                match spec_lookup(r_before, crate::axis::spec_kind_rank(k)) {
                                    Some(entry) => {
                                        let l = choose|l: int|
                                            last_axis_with_kind(self.axes@.take(i as int), k, l)
                                                && entry.1.actions@ == self.axes@[l].actions@;
                                        assert(last_axis_with_kind(
                                            self.axes@.take(i as int + 1),
                                            k,
                                            l,
                                        ));
                                    },
                                    None => {},
                                }
                            }
                        }
                    }
                },
                Err(_) => {
                    proof {
                        assert forall|k: AxisKind| true implies match spec_lookup(
                            r.view(),
                            #[trigger] crate::axis::spec_kind_rank(k),
                        ) {
                            Some(entry) => entry.0 == k && entry.1.inverted == self.inverted
                                && entry.1.range == self.range && entry.1.axes@.len() == 0 && (
                            exists|l: int|
                                last_axis_with_kind(self.axes@.take(i as int + 1), k, l)
                                    && entry.1.actions@ == self.axes@[l].actions@),
                            None => forall|l: int|
                                0 <= l < i + 1 ==> spec_kind_of_tcode_name(
                                    (#[trigger] self.axes@[l]).id@,
                                ) != Some(k),
                        } by {
                            match spec_lookup(r.view(), #[trigger] crate::axis::spec_kind_rank(k)) {
                                Some(entry) => {
                                    let l = choose|l: int|
                                        last_axis_with_kind(self.axes@.take(i as int), k, l)
                                            && entry.1.actions@ == self.axes@[l].actions@;
                                    assert(last_axis_with_kind(
                                        self.axes@.take(i as int + 1),
                                        k,
                                        l,
                                    ));
                                },
                                None => {},
                            }
                        }
                    }
                },
            }
            i += 1;
        }
        proof {
            assert(self.axes@.take(n as int) =~= self.axes@);
        }
        r
    }
}

} // verus!
