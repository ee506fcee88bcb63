//! The keyboard shortcuts that step the active model's reasoning effort
//! down or up through the efforts the model declares.

use vstd::prelude::*;
use crate::text::{push_str_chars, str_eq};

verus! {

/// A reasoning effort.
#[derive(Debug)]
pub enum ReasoningEffort {
    /// No reasoning at all.
    NoEffort,
    Minimal,
    Low,
    Medium,
    High,
    XHigh,
    Max,
    Ultra,
    /// An effort this client does not know by name.
    Custom(String),
}

/// Whether two efforts are the same: the same level, or custom ones of the
/// same name.
pub open spec fn same_effort(a: ReasoningEffort, b: ReasoningEffort) -> bool {
    match (a, b) {
        (ReasoningEffort::Custom(x), ReasoningEffort::Custom(y)) => x@ == y@,
        (ReasoningEffort::NoEffort, ReasoningEffort::NoEffort) => true,
        (ReasoningEffort::Minimal, ReasoningEffort::Minimal) => true,
        (ReasoningEffort::Low, ReasoningEffort::Low) => true,
        (ReasoningEffort::Medium, ReasoningEffort::Medium) => true,
        (ReasoningEffort::High, ReasoningEffort::High) => true,
        (ReasoningEffort::XHigh, ReasoningEffort::XHigh) => true,
        (ReasoningEffort::Max, ReasoningEffort::Max) => true,
        (ReasoningEffort::Ultra, ReasoningEffort::Ultra) => true,
        _ => false,
    }
}

/// Whether an effort needs the advanced reasoning picker: Max and Ultra.
pub open spec fn is_advanced(e: ReasoningEffort) -> bool {
    e is Max || e is Ultra
}

impl ReasoningEffort {
    /// A copy of this effort.
    pub fn duplicate(&self) -> (r: ReasoningEffort)
        ensures
            same_effort(r, *self),
            is_advanced(r) == is_advanced(*self),
            r is Ultra == self is Ultra,
    {
        match self {
            ReasoningEffort::NoEffort => ReasoningEffort::NoEffort,
            ReasoningEffort::Minimal => ReasoningEffort::Minimal,
            ReasoningEffort::Low => ReasoningEffort::Low,
            ReasoningEffort::Medium => ReasoningEffort::Medium,
            ReasoningEffort::High => ReasoningEffort::High,
            ReasoningEffort::XHigh => ReasoningEffort::XHigh,
            ReasoningEffort::Max => ReasoningEffort::Max,
            ReasoningEffort::Ultra => ReasoningEffort::Ultra,
            ReasoningEffort::Custom(s) => ReasoningEffort::Custom(s.clone()),
        }
    }

    /// Whether two efforts are the same.
    pub fn same_as(&self, other: &ReasoningEffort) -> (r: bool)
        ensures
            r == same_effort(*self, *other),
    {
        match (self, other) {
            (ReasoningEffort::Custom(x), ReasoningEffort::Custom(y)) => str_eq(x.as_str(), y.as_str()),
            (ReasoningEffort::NoEffort, ReasoningEffort::NoEffort) => true,
            (ReasoningEffort::Minimal, ReasoningEffort::Minimal) => true,
            (ReasoningEffort::Low, ReasoningEffort::Low) => true,
            (ReasoningEffort::Medium, ReasoningEffort::Medium) => true,
            (ReasoningEffort::High, ReasoningEffort::High) => true,
            (ReasoningEffort::XHigh, ReasoningEffort::XHigh) => true,
            (ReasoningEffort::Max, ReasoningEffort::Max) => true,
            (ReasoningEffort::Ultra, ReasoningEffort::Ultra) => true,
            _ => false,
        }
    }

    /// Whether this effort needs the advanced reasoning picker.
    pub fn is_advanced_reasoning_effort(&self) -> (r: bool)
        ensures
            r == is_advanced(*self),
    {
        match self {
            ReasoningEffort::Max | ReasoningEffort::Ultra => true,
            _ => false,
        }
    }
}

/// The direction of a reasoning shortcut.
#[derive(Clone, Copy, Debug, PartialEq, Eq, Structural)]
pub enum ReasoningShortcutDirection {
    Lower,
    Raise,
}

impl ReasoningShortcutDirection {
    /// The message shown where the effort cannot move further this way;
    /// `label` names the current effort as a sentence shows it.
    pub fn bound_message(self, label: &str) -> (s: String)
        ensures
            s@ == "Reasoning is already at the "@ + (match self {
                ReasoningShortcutDirection::Lower => "lowest"@,
                ReasoningShortcutDirection::Raise => "highest"@,
            }) + " level ("@ + label@ + ")."@,
    {
        let mut s = String::from_str("Reasoning is already at the ");
        match self {
            ReasoningShortcutDirection::Lower => crate::text::push_str_chars(&mut s, "lowest"),
            ReasoningShortcutDirection::Raise => crate::text::push_str_chars(&mut s, "highest"),
        }
        crate::text::push_str_chars(&mut s, " level (");
        crate::text::push_str_chars(&mut s, label);
        crate::text::push_str_chars(&mut s, ").");
        s
    }
}

/// The first index of an effort the same as `e`, if any.
pub open spec fn first_index(choices: Seq<ReasoningEffort>, e: ReasoningEffort) -> Option<nat>
    decreases choices.len(),
{
    if choices.len() == 0 {
        None
    } else if same_effort(choices[0], e) {
        Some(0)
    } else {
        match first_index(choices.drop_first(), e) {
            Some(i) => Some(i + 1),
            None => None,
        }
    }
}

/// The effort one step from `current` in `choices`: the one before it to
/// lower, the one after it to raise; none past either end, or where
/// `current` is not among the choices.
pub open spec fn next_effort_index(
    choices: Seq<ReasoningEffort>,
    current: ReasoningEffort,
    direction: ReasoningShortcutDirection,
) -> Option<nat> {
    match first_index(choices, current) {
        Some(i) => match direction {
            ReasoningShortcutDirection::Lower => if i == 0 {
                None
            } else {
                Some((i - 1) as nat)
            },
            ReasoningShortcutDirection::Raise => if i + 1 < choices.len() {
                Some(i + 1)
            } else {
                None
            },
        },
        None => None,
    }
}

proof fn lemma_first_index(choices: Seq<ReasoningEffort>, e: ReasoningEffort, k: int)
    requires
        0 <= k <= choices.len(),
        forall|j: int| 0 <= j < k ==> !same_effort(#[trigger] choices[j], e),
    ensures
        k < choices.len() && same_effort(choices[k], e) ==> first_index(choices, e) == Some(k as nat),
        k == choices.len() ==> first_index(choices, e) is None,
    decreases k,
{
    if k > 0 {
        let t = choices.drop_first();
        assert forall|j: int| 0 <= j < k - 1 implies !same_effort(#[trigger] t[j], e) by {
            assert(t[j] == choices[j + 1]);
        }
        if k < choices.len() {
            assert(t[k - 1] == choices[k]);
        }
        lemma_first_index(t, e, k - 1);
    }
}

/// Where `current` stands in `choices`.
fn position_of(choices: &[ReasoningEffort], current: &ReasoningEffort) -> (r: Option<usize>)
    ensures
        r matches Some(i) ==> first_index(choices@, *current) == Some(i as nat),
        r is None ==> first_index(choices@, *current) is None,
{
    let mut i: usize = 0;
    while i < choices.len()
        invariant
            i <= choices.len(),
            forall|j: int| 0 <= j < i ==> !same_effort(#[trigger] choices@[j], *current),
        decreases choices.len() - i,
    {
        if choices[i].same_as(current) {
            proof {
                lemma_first_index(choices@, *current, i as int);
            }
            return Some(i);
        }
        i += 1;
    }
    proof {
        lemma_first_index(choices@, *current, i as int);
    }
    None
}

/// The effort one step from `current` (see `next_effort_index`).
pub fn next_reasoning_effort(
    choices: &[ReasoningEffort],
    current_effort: Option<&ReasoningEffort>,
    direction: ReasoningShortcutDirection,
) -> (r: Option<ReasoningEffort>)
    ensures
        current_effort is None ==> r is None,
        current_effort matches Some(c) ==> match next_effort_index(choices@, *c, direction) {
            Some(i) => r matches Some(e) && same_effort(e, choices@[i as int]) && is_advanced(e)
                == is_advanced(choices@[i as int]),
            None => r is None,
        },
{
    let current = match current_effort {
        Some(c) => c,
        None => {
            return None;
        },
    };
    proof {
        lemma_first_index_props(choices@, *current);
    }
    match position_of(choices, current) {
        Some(i) => match direction {
            ReasoningShortcutDirection::Lower => {
                if i == 0 {
                    None
                } else {
                    Some(choices[i - 1].duplicate())
                }
            },
            ReasoningShortcutDirection::Raise => {
                if i < choices.len() - 1 {
                    Some(choices[i + 1].duplicate())
                } else {
                    None
                }
            },
        },
        None => None,
    }
}

/// `same_effort` is an equivalence.
pub proof fn lemma_same_effort_equiv(a: ReasoningEffort, b: ReasoningEffort, c: ReasoningEffort)
    ensures
        same_effort(a, a),
        same_effort(a, b) ==> same_effort(b, a),
        same_effort(a, b) && same_effort(b, c) ==> same_effort(a, c),
{
}

/// Efforts listed once each.
pub open spec fn distinct_efforts(choices: Seq<ReasoningEffort>) -> bool {
    forall|i: int, j: int|
        0 <= i < j < choices.len() ==> !same_effort(#[trigger] choices[i], #[trigger] choices[j])
}

/// Raising then lowering comes back: where each effort is listed once, the
/// effort one step below the one raised to is the one started from.
pub proof fn lemma_raise_then_lower(choices: Seq<ReasoningEffort>, current: ReasoningEffort)
    requires
        distinct_efforts(choices),
        next_effort_index(choices, current, ReasoningShortcutDirection::Raise) is Some,
    ensures
        ({
            let up = next_effort_index(choices, current, ReasoningShortcutDirection::Raise)->0;
            next_effort_index(choices, choices[up as int], ReasoningShortcutDirection::Lower) == first_index(
                choices,
                current,
            )
        }),
{
    let i = first_index(choices, current)->0 as int;
    lemma_first_index_props(choices, current);
    let up = i + 1;
    assert forall|j: int| 0 <= j < up implies !same_effort(#[trigger] choices[j], choices[up]) by {
        if same_effort(choices[j], choices[up]) {
            lemma_same_effort_equiv(choices[j], choices[up], choices[up]);
        }
    }
    lemma_same_effort_equiv(choices[up], choices[up], choices[up]);
    lemma_first_index(choices, choices[up], up);
}

/// What `first_index` finds.
pub proof fn lemma_first_index_props(choices: Seq<ReasoningEffort>, e: ReasoningEffort)
    ensures
        first_index(choices, e) matches Some(i) ==> i < choices.len() && same_effort(
            choices[i as int],
            e,
        ),
    decreases choices.len(),
{
    if choices.len() > 0 && !same_effort(choices[0], e) {
        lemma_first_index_props(choices.drop_first(), e);
        if let Some(i) = first_index(choices.drop_first(), e) {
            assert(choices.drop_first()[i as int] == choices[i as int + 1]);
        }
    }
}

/// The rank of an effort when choices are ordered: other efforts first,
/// then Max, then Ultra.
pub open spec fn effort_rank(e: ReasoningEffort) -> nat {
    if e is Ultra {
        2
    } else if e is Max {
        1
    } else {
        0
    }
}

/// The efforts of rank `r`, in order.
pub open spec fn of_rank(s: Seq<ReasoningEffort>, r: nat) -> Seq<ReasoningEffort>
    decreases s.len(),
{
    if s.len() == 0 {
        Seq::empty()
    } else {
        of_rank(s.drop_last(), r) + if effort_rank(s.last()) == r {
            seq![s.last()]
        } else {
            Seq::empty()
        }
    }
}

/// Efforts that are the same one by one.
pub open spec fn same_efforts(a: Seq<ReasoningEffort>, b: Seq<ReasoningEffort>) -> bool {
    a.len() == b.len() && forall|i: int| 0 <= i < a.len() ==> same_effort(#[trigger] a[i], b[i])
}

/// The choices of a model: its efforts in declared order, the advanced
/// ones last (Max before Ultra), or its default effort where it declares
/// none.
pub open spec fn choices_spec(supported: Seq<ReasoningEffort>, default: ReasoningEffort) -> Seq<ReasoningEffort> {
    let c = of_rank(supported, 0) + of_rank(supported, 1) + of_rank(supported, 2);
    if c.len() == 0 {
        seq![default]
    } else {
        c
    }
}

/// Copies the efforts of rank `r` onto `out`.
fn push_of_rank(supported: &[ReasoningEffort], r: u8, out: &mut Vec<ReasoningEffort>)
    requires
        r <= 2,
    ensures
        same_efforts(final(out)@, old(out)@ + of_rank(supported@, r as nat)),
        forall|k: int| 0 <= k < final(out)@.len() ==> #[trigger] effort_rank(final(out)@[k]) == if k < old(out)@.len() {
            effort_rank(old(out)@[k])
        } else {
            r as nat
        },
{
    let mut i: usize = 0;
    let ghost start = out@;
    proof {
        assert(start + of_rank(supported@.take(0), r as nat) =~= start);
    }
    while i < supported.len()
        invariant
            i <= supported.len(),
            r <= 2,
            out@.len() >= start.len(),
            out@.take(start.len() as int) == start,
            same_efforts(out@, start + of_rank(supported@.take(i as int), r as nat)),
            forall|k: int| start.len() <= k < out@.len() ==> #[trigger] effort_rank(out@[k]) == r as nat,
        decreases supported.len() - i,
    {
        let e = &supported[i];
        let rank: u8 = match e {
            ReasoningEffort::Ultra => 2,
            ReasoningEffort::Max => 1,
            _ => 0,
        };
        proof {
            assert(supported@.take(i + 1).drop_last() =~= supported@.take(i as int));
            assert(supported@.take(i + 1).last() == *e);
        }
        if rank == r {
            let ghost before = out@;
            out.push(e.duplicate());
            proof {
                assert(out@.take(start.len() as int) =~= start);
                assert(start + of_rank(supported@.take(i + 1), r as nat) =~= start + of_rank(
                    supported@.take(i as int),
                    r as nat,
                ) + seq![*e]);
            }
        } else {
            proof {
                assert(start + of_rank(supported@.take(i + 1), r as nat) =~= start + of_rank(
                    supported@.take(i as int),
                    r as nat,
                ));
            }
        }
        i += 1;
    }
    proof {
        assert(supported@.take(supported@.len() as int) =~= supported@);
        assert forall|k: int| 0 <= k < out@.len() implies #[trigger] effort_rank(out@[k]) == if k < start.len() {
            effort_rank(start[k])
        } else {
            r as nat
        } by {
            if k < start.len() {
                assert(out@.take(start.len() as int)[k] == out@[k]);
            }
        }
    }
}

/// The efforts the shortcuts step through for a model (see `choices_spec`).
pub fn reasoning_choices(supported: &[ReasoningEffort], default: &ReasoningEffort) -> (choices: Vec<ReasoningEffort>)
    ensures
        same_efforts(choices@, choices_spec(supported@, *default)),
{
    let mut choices: Vec<ReasoningEffort> = Vec::new();
    push_of_rank(supported, 0, &mut choices);
    push_of_rank(supported, 1, &mut choices);
    push_of_rank(supported, 2, &mut choices);
    if choices.len() == 0 {
        choices.push(default.duplicate());
        proof {
            assert(of_rank(supported@, 0) + of_rank(supported@, 1) + of_rank(supported@, 2) =~= Seq::<ReasoningEffort>::empty());
        }
    }
    choices
}

/// Whether some choice is the same as `e`.
pub open spec fn among(choices: Seq<ReasoningEffort>, e: ReasoningEffort) -> bool {
    exists|i: int| 0 <= i < choices.len() && same_effort(#[trigger] choices[i], e)
}

/// The effort a shortcut starts from: the configured one (the model default
/// where none is configured) where it is a choice, else the default where
/// it is, else the first choice.
pub open spec fn anchor_effort(
    choices: Seq<ReasoningEffort>,
    configured: ReasoningEffort,
    default: ReasoningEffort,
) -> ReasoningEffort {
    if among(choices, configured) {
        configured
    } else if among(choices, default) {
        default
    } else if choices.len() > 0 {
        choices[0]
    } else {
        default
    }
}

/// Whether some choice is the same as `e`.
fn is_among(choices: &[ReasoningEffort], e: &ReasoningEffort) -> (r: bool)
    ensures
        r == among(choices@, *e),
{
    let mut i: usize = 0;
    while i < choices.len()
        invariant
            i <= choices.len(),
            forall|j: int| 0 <= j < i ==> !same_effort(#[trigger] choices@[j], *e),
        decreases choices.len() - i,
    {
        if choices[i].same_as(e) {
            return true;
        }
        i += 1;
    }
    false
}

/// The model a shortcut acts on: its declared efforts and its default.
#[derive(Debug)]
pub struct ModelPresetView {
    pub supported: Vec<ReasoningEffort>,
    pub default: ReasoningEffort,
}

/// What the chat widget knows when a reasoning shortcut is pressed.
#[derive(Debug)]
pub struct ReasoningShortcutState {
    /// Whether no modal or popup holds the input.
    pub no_modal_or_popup_active: bool,
    /// Whether a parent owns the input.
    pub blocks_direct_input: bool,
    pub session_configured: bool,
    /// The preset of the current model, where the catalog lists it.
    pub preset: Option<ModelPresetView>,
    /// The reasoning effort in effect, where one is configured.
    pub effective_effort: Option<ReasoningEffort>,
    /// Whether collaboration modes are on and Plan mode is active.
    pub plan_mode_active: bool,
}

/// What a reasoning shortcut does.
#[derive(Debug)]
pub enum ShortcutOutcome {
    /// A modal or popup has the input: the key goes on to it.
    Ignored,
    /// A parent owns the input: an error is shown.
    ParentOwnsInput,
    /// Startup has not completed: shortcuts are disabled for now.
    StartupIncomplete,
    /// The current model has no preset: shortcuts are unavailable.
    Unavailable,
    /// The effort is at the end the shortcut moves to.
    AtBound(ReasoningEffort),
    /// Raising would reach an advanced effort, which needs the picker; these
    /// are the advanced choices.
    NeedsAdvancedPicker(Vec<ReasoningEffort>),
    /// Plan mode's effort becomes this one.
    SetPlanModeEffort(ReasoningEffort),
    /// The effort becomes this one.
    SetEffort(ReasoningEffort),
}

/// The advanced efforts among `cs`, in order.
pub open spec fn advanced_of(cs: Seq<ReasoningEffort>) -> Seq<ReasoningEffort>
    decreases cs.len(),
{
    if cs.len() == 0 {
        Seq::empty()
    } else if is_advanced(cs.last()) {
        advanced_of(cs.drop_last()).push(cs.last())
    } else {
        advanced_of(cs.drop_last())
    }
}

/// The first effort given, in order.
pub open spec fn first_effort(a: Option<ReasoningEffort>, b: Option<ReasoningEffort>, c: Option<ReasoningEffort>) -> Option<ReasoningEffort> {
    if a is Some {
        a
    } else if b is Some {
        b
    } else {
        c
    }
}

/// The reasoning effort the status output shows: the one in effect, else
/// the configured one, else the current model's default, where known.
pub fn status_reasoning_effort(
    effective: Option<ReasoningEffort>,
    configured: Option<ReasoningEffort>,
    model_default: Option<ReasoningEffort>,
) -> (r: Option<ReasoningEffort>)
    ensures
        r == first_effort(effective, configured, model_default),
{
    match effective {
        Some(e) => Some(e),
        None => match configured {
            Some(e) => Some(e),
            None => model_default,
        },
    }
}

/// The effort configured: the one in effect, else the model default.
pub open spec fn configured_of(state: ReasoningShortcutState) -> ReasoningEffort {
    match state.effective_effort {
        Some(e) => e,
        None => state.preset->0.default,
    }
}

/// The effort a shortcut steps to from the state, where it steps.
pub open spec fn stepped(state: ReasoningShortcutState, direction: ReasoningShortcutDirection) -> Option<nat> {
    let p = state.preset->0;
    let choices = choices_spec(p.supported@, p.default);
    let configured = match state.effective_effort {
        Some(e) => e,
        None => p.default,
    };
    next_effort_index(choices, anchor_effort(choices, configured, p.default), direction)
}

/// What a reasoning shortcut does: nothing while a modal or popup has the
/// input; an error while a parent owns it; a notice before startup
/// completes or where the model has no preset; otherwise it steps the
/// effort one choice down or up from where it starts (see `anchor_effort`),
/// reports the bound where there is no next choice, points to the advanced
/// picker rather than raise to Max or Ultra, and sets Plan mode's effort in
/// Plan mode and the session's otherwise.
pub fn reasoning_shortcut_outcome(state: &ReasoningShortcutState, direction: ReasoningShortcutDirection) -> (o: ShortcutOutcome)
    ensures
        !state.no_modal_or_popup_active ==> o is Ignored,
        state.no_modal_or_popup_active && state.blocks_direct_input ==> o is ParentOwnsInput,
        state.no_modal_or_popup_active && !state.blocks_direct_input && !state.session_configured
            ==> o is StartupIncomplete,
        state.no_modal_or_popup_active && !state.blocks_direct_input && state.session_configured
            && state.preset is None ==> o is Unavailable,
        state.no_modal_or_popup_active && !state.blocks_direct_input && state.session_configured
            && state.preset is Some ==> ({
            let p = state.preset->0;
            let choices = choices_spec(p.supported@, p.default);
            let anchor = anchor_effort(choices, configured_of(*state), p.default);
            match next_effort_index(choices, anchor, direction) {
                None => o matches ShortcutOutcome::AtBound(e) && same_effort(e, anchor),
                Some(i) => if direction == ReasoningShortcutDirection::Raise && is_advanced(choices[i as int]) {
                    o matches ShortcutOutcome::NeedsAdvancedPicker(v) && same_efforts(
                        v@,
                        advanced_of(choices),
                    )
                } else if state.plan_mode_active {
                    o matches ShortcutOutcome::SetPlanModeEffort(e) && same_effort(e, choices[i as int])
                } else {
                    o matches ShortcutOutcome::SetEffort(e) && same_effort(e, choices[i as int])
                },
            }
        }),
        direction == ReasoningShortcutDirection::Raise ==> match o {
            ShortcutOutcome::SetEffort(e) => !is_advanced(e),
            ShortcutOutcome::SetPlanModeEffort(e) => !is_advanced(e),
            _ => true,
        },
{
    if !state.no_modal_or_popup_active {
        return ShortcutOutcome::Ignored;
    }
    if state.blocks_direct_input {
        return ShortcutOutcome::ParentOwnsInput;
    }
    if !state.session_configured {
        return ShortcutOutcome::StartupIncomplete;
    }
    let preset = match &state.preset {
        Some(p) => p,
        None => {
            return ShortcutOutcome::Unavailable;
        },
    };
    let choices = reasoning_choices(preset.supported.as_slice(), &preset.default);
    let ghost cs = choices_spec(preset.supported@, preset.default);
    let configured = match &state.effective_effort {
        Some(e) => e.duplicate(),
        None => preset.default.duplicate(),
    };
    let ghost cfg = configured_of(*state);
    proof {
        lemma_same_efforts_among(choices@, cs, configured);
        lemma_same_efforts_among(choices@, cs, preset.default);
        lemma_among_same(cs, configured, cfg);
    }
    let ghost anchor = anchor_effort(cs, cfg, preset.default);
    proof {
        assert(same_effort(configured, cfg));
        lemma_among_same(cs, configured, cfg);
    }
    let current = if is_among(choices.as_slice(), &configured) {
        proof {
            lemma_same_effort_equiv(configured, cfg, cfg);
        }
        configured
    } else if is_among(choices.as_slice(), &preset.default) {
        let d = preset.default.duplicate();
        d
    } else if choices.len() > 0 {
        let d = choices[0].duplicate();
        proof {
            assert(same_effort(choices@[0], cs[0]));
            lemma_same_effort_equiv(d, choices@[0], cs[0]);
        }
        d
    } else {
        preset.default.duplicate()
    };
    proof {
        assert(same_effort(current, anchor));
        lemma_next_same(choices@, cs, current, anchor, direction);
    }
    let next = next_reasoning_effort(choices.as_slice(), Some(&current), direction);
    match next {
        None => {
            proof {
                assert(next_effort_index(choices@, current, direction) is None);
                assert(next_effort_index(cs, anchor, direction) is None);
                assert(cs == choices_spec(state.preset->0.supported@, state.preset->0.default));
                assert(anchor == anchor_effort(cs, configured_of(*state), state.preset->0.default));
                assert(same_effort(current, anchor));
            }
            let o = ShortcutOutcome::AtBound(current);
            proof {
                assert(o matches ShortcutOutcome::AtBound(e) && same_effort(e, anchor));
            }
            o
        },
        Some(e) => {
            proof {
                lemma_first_index_props(cs, anchor);
                let i = next_effort_index(cs, anchor, direction)->0 as int;
                assert(0 <= i < cs.len());
                assert(same_effort(choices@[i], cs[i]));
                lemma_same_effort_equiv(e, choices@[i], cs[i]);
                assert(same_effort(e, cs[i]));
                assert(is_advanced(e) == is_advanced(cs[i]));
            }
            if direction == ReasoningShortcutDirection::Raise && e.is_advanced_reasoning_effort() {
                let mut advanced: Vec<ReasoningEffort> = Vec::new();
                let mut k: usize = 0;
                proof {
                    assert(cs.take(0) =~= Seq::<ReasoningEffort>::empty());
                }
                while k < choices.len()
                    invariant
                        k <= choices.len(),
                        same_efforts(choices@, cs),
                        same_efforts(advanced@, advanced_of(cs.take(k as int))),
                    decreases choices.len() - k,
                {
                    let ghost before = advanced@;
                    proof {
                        assert(cs.take(k + 1).drop_last() =~= cs.take(k as int));
                        assert(cs.take(k + 1).last() == cs[k as int]);
                        assert(same_effort(choices@[k as int], cs[k as int]));
                    }
                    if choices[k].is_advanced_reasoning_effort() {
                        let d = choices[k].duplicate();
                        proof {
                            lemma_same_effort_equiv(d, choices@[k as int], cs[k as int]);
                        }
                        advanced.push(d);
                        proof {
                            assert forall|j: int| 0 <= j < advanced@.len() implies same_effort(
                                #[trigger] advanced@[j],
                                advanced_of(cs.take(k + 1))[j],
                            ) by {
                                if j < before.len() {
                                    assert(advanced@[j] == before[j]);
                                }
                            }
                        }
                    }
                    k += 1;
                }
                proof {
                    assert(cs.take(choices@.len() as int) =~= cs);
                }
                ShortcutOutcome::NeedsAdvancedPicker(advanced)
            } else if state.plan_mode_active {
                ShortcutOutcome::SetPlanModeEffort(e)
            } else {
                ShortcutOutcome::SetEffort(e)
            }
        },
    }
}

/// Choices the same one by one hold the same efforts.
proof fn lemma_same_efforts_among(a: Seq<ReasoningEffort>, b: Seq<ReasoningEffort>, e: ReasoningEffort)
    requires
        same_efforts(a, b),
    ensures
        among(a, e) == among(b, e),
{
    if among(a, e) {
        let i = choose|i: int| 0 <= i < a.len() && same_effort(#[trigger] a[i], e);
        lemma_same_effort_equiv(b[i], a[i], e);
        lemma_same_effort_equiv(a[i], b[i], e);
        assert(same_effort(b[i], e));
    }
    if among(b, e) {
        let i = choose|i: int| 0 <= i < b.len() && same_effort(#[trigger] b[i], e);
        lemma_same_effort_equiv(a[i], b[i], e);
        assert(same_effort(a[i], e));
    }
}

/// Being among the choices depends on the effort only up to sameness.
proof fn lemma_among_same(s: Seq<ReasoningEffort>, a: ReasoningEffort, b: ReasoningEffort)
    requires
        same_effort(a, b),
    ensures
        among(s, a) == among(s, b),
{
    if among(s, a) {
        let i = choose|i: int| 0 <= i < s.len() && same_effort(#[trigger] s[i], a);
        lemma_same_effort_equiv(s[i], a, b);
    }
    if among(s, b) {
        let i = choose|i: int| 0 <= i < s.len() && same_effort(#[trigger] s[i], b);
        lemma_same_effort_equiv(b, a, a);
        lemma_same_effort_equiv(s[i], b, a);
    }
}

/// Stepping depends on choices and effort only up to sameness.
proof fn lemma_next_same(
    a: Seq<ReasoningEffort>,
    b: Seq<ReasoningEffort>,
    x: ReasoningEffort,
    y: ReasoningEffort,
    d: ReasoningShortcutDirection,
)
    requires
        same_efforts(a, b),
        same_effort(x, y),
    ensures
        next_effort_index(a, x, d) == next_effort_index(b, y, d),
{
    lemma_first_index_same(a, b, x, y);
}

proof fn lemma_first_index_same(a: Seq<ReasoningEffort>, b: Seq<ReasoningEffort>, x: ReasoningEffort, y: ReasoningEffort)
    requires
        same_efforts(a, b),
        same_effort(x, y),
    ensures
        first_index(a, x) == first_index(b, y),
    decreases a.len(),
{
    if a.len() > 0 {
        lemma_same_effort_equiv(a[0], x, y);
        lemma_same_effort_equiv(b[0], a[0], x);
        lemma_same_effort_equiv(a[0], b[0], y);
        lemma_same_effort_equiv(x, y, y);
        lemma_same_effort_equiv(y, x, x);
        assert(same_effort(a[0], b[0]));
        assert(same_effort(a[0], x) == same_effort(b[0], y)) by {
            lemma_same_effort_equiv(b[0], a[0], a[0]);
            lemma_same_effort_equiv(b[0], a[0], x);
            lemma_same_effort_equiv(b[0], x, y);
            lemma_same_effort_equiv(a[0], b[0], b[0]);
            lemma_same_effort_equiv(a[0], b[0], y);
            lemma_same_effort_equiv(a[0], y, x);
        }
        let ta = a.drop_first();
        let tb = b.drop_first();
        assert forall|i: int| 0 <= i < ta.len() implies same_effort(#[trigger] ta[i], tb[i]) by {
            assert(ta[i] == a[i + 1] && tb[i] == b[i + 1]);
        }
        lemma_first_index_same(ta, tb, x, y);
    }
}

} // verus!
