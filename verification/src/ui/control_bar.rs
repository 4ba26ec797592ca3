//! Which controls of a bar give way when there is little room.
//!
//! Controls become smaller one at a time, in an order that does not depend on
//! how wide they are. Whoever knows the widths goes along that order until
//! everything fits.

use crate::float_bits::FloatBits;
use vstd::prelude::*;

verus! {

/// The bits of the infinite number above zero.
pub const INFINITE_BITS: u32 = 0x7f80_0000;

/// How much of a control is shown.
#[derive(Clone, Copy, Debug, PartialEq, Eq, Structural)]
pub enum ControlBarDisplayMode {
    Full,
    Compact,
    Icon,
}

impl ControlBarDisplayMode {
    /// Where the width of the mode stands among the widths of a control.
    pub open spec fn place(self) -> int {
        match self {
            ControlBarDisplayMode::Full => 0,
            ControlBarDisplayMode::Compact => 1,
            ControlBarDisplayMode::Icon => 2,
        }
    }

    /// Where the width of the mode stands among the widths of a control.
    pub fn index(self) -> (index: usize)
        ensures
            index == self.place(),
    {
        match self {
            ControlBarDisplayMode::Full => 0,
            ControlBarDisplayMode::Compact => 1,
            ControlBarDisplayMode::Icon => 2,
        }
    }

    /// The next smaller mode, or the smallest.
    pub open spec fn smaller(self) -> ControlBarDisplayMode {
        match self {
            ControlBarDisplayMode::Full => ControlBarDisplayMode::Compact,
            _ => ControlBarDisplayMode::Icon,
        }
    }

    /// The next smaller mode, or the smallest.
    pub fn next(self) -> (next: ControlBarDisplayMode)
        ensures
            next == self.smaller(),
    {
        match self {
            ControlBarDisplayMode::Full => ControlBarDisplayMode::Compact,
            ControlBarDisplayMode::Compact => ControlBarDisplayMode::Icon,
            ControlBarDisplayMode::Icon => ControlBarDisplayMode::Icon,
        }
    }
}

/// What is known of a control besides its widths.
#[derive(Clone, Copy, Debug, PartialEq, Eq, Structural)]
pub struct BarControl {
    pub visible: bool,
    /// A text field that is open.
    pub expanded_input: bool,
    /// The lower, the sooner it gives way.
    pub priority: u16,
}

/// A control becomes smaller.
#[derive(Clone, Copy, Debug, PartialEq, Eq, Structural)]
pub struct Collapse {
    pub index: usize,
    pub from: ControlBarDisplayMode,
    pub to: ControlBarDisplayMode,
}

/// One control gives way before another: by priority, then by place.
pub open spec fn gives_way_before(controls: Seq<BarControl>, a: usize, b: usize) -> bool {
    controls[a as int].priority < controls[b as int].priority || (controls[a as int].priority
        == controls[b as int].priority && a < b)
}

/// These are the controls of a kind that can give way, each once, those first
/// that give way first.
pub open spec fn ranked(controls: Seq<BarControl>, expanded: bool, order: Seq<usize>) -> bool {
    &&& forall|i: int|
        0 <= i < order.len() ==> (#[trigger] order[i]) < controls.len()
            && controls[order[i] as int].visible && controls[order[i] as int].expanded_input
            == expanded
    &&& forall|i: int, j: int|
        0 <= i < j < order.len() ==> gives_way_before(
            controls,
            #[trigger] order[i],
            #[trigger] order[j],
        )
    &&& forall|index: usize|
        index < controls.len() && controls[index as int].visible
            && controls[index as int].expanded_input == expanded ==> #[trigger] order.contains(
            index,
        )
}

/// The controls of a kind, those first that give way first.
fn rank(controls: &Vec<BarControl>, expanded: bool) -> (order: Vec<usize>)
    ensures
        ranked(controls@, expanded, order@),
{
    let mut order: Vec<usize> = Vec::new();
    let mut index: usize = 0;
    while index < controls.len()
        invariant
            index <= controls@.len(),
            forall|i: int|
                0 <= i < order@.len() ==> (#[trigger] order@[i]) < index && order@[i]
                    < controls@.len() && controls@[order@[i] as int].visible
                    && controls@[order@[i] as int].expanded_input == expanded,
            forall|i: int, j: int|
                0 <= i < j < order@.len() ==> gives_way_before(
                    controls@,
                    #[trigger] order@[i],
                    #[trigger] order@[j],
                ),
            forall|k: usize|
                k < index && controls@[k as int].visible && controls@[k as int].expanded_input
                    == expanded ==> #[trigger] order@.contains(k),
        decreases controls@.len() - index,
    {
        if controls[index].visible && controls[index].expanded_input == expanded {
            let mut at: usize = order.len();
            while at > 0 && controls[order[at - 1]].priority > controls[index].priority
                invariant
                    at <= order@.len(),
                    index < controls@.len(),
                    forall|i: int|
                        0 <= i < order@.len() ==> (#[trigger] order@[i]) < index && order@[i]
                            < controls@.len(),
                    forall|i: int|
                        at <= i < order@.len() ==> controls@[(
                        #[trigger] order@[i]) as int].priority > controls@[index as int].priority,
                decreases at,
            {
                at -= 1;
            }
            let ghost before = order@;
            order.insert(at, index);
            proof {
                let after = order@;
                assert(after =~= before.take(at as int).push(index) + before.skip(at as int));
                assert forall|i: int, j: int|
                    0 <= i < j < after.len() implies gives_way_before(
                    controls@,
                    #[trigger] after[i],
                    #[trigger] after[j],
                ) by {
                    let a = if i < at {
                        i
                    } else {
                        i - 1
                    };
                    let b = if j < at {
                        j
                    } else {
                        j - 1
                    };
                    if i != at && j != at {
                        assert(after[i] == before[a]);
                        assert(after[j] == before[b]);
                    } else if i == at {
                        assert(after[j] == before[b]);
                    } else {
                        assert(after[i] == before[a]);
                        if a < at - 1 {
                            assert(gives_way_before(controls@, before[a], before[at - 1]));
                        }
                    }
                }
                assert forall|i: int| 0 <= i < after.len() implies (#[trigger] after[i]) < index + 1
                    && after[i] < controls@.len() && controls@[after[i] as int].visible
                    && controls@[after[i] as int].expanded_input == expanded by {
                    if i < at {
                        assert(after[i] == before[i]);
                    } else if i > at {
                        assert(after[i] == before[i - 1]);
                    }
                }
                assert forall|k: usize|
                    k < index + 1 && controls@[k as int].visible
                        && controls@[k as int].expanded_input == expanded implies
                    #[trigger] after.contains(k) by {
                    if k == index {
                        assert(after[at as int] == k);
                    } else {
                        assert(before.contains(k));
                        let i = choose|i: int| 0 <= i < before.len() && before[i] == k;
                        let j = if i < at {
                            i
                        } else {
                            i + 1
                        };
                        assert(after[j] == k);
                    }
                }
            }
        }
        index += 1;
    }
    order
}

/// One round over controls: each becomes smaller once.
pub open spec fn round(order: Seq<usize>, from: ControlBarDisplayMode) -> Seq<Collapse> {
    order.map(|i: int, index: usize| Collapse { index, from, to: from.smaller() })
}

/// The whole order: first all that are no open text fields become compact, then
/// icons; only then do open text fields, in the same way.
pub open spec fn is_collapse_order(controls: Seq<BarControl>, steps: Seq<Collapse>) -> bool {
    exists|plain: Seq<usize>, inputs: Seq<usize>| #[trigger]
        ranked(controls, false, plain) && #[trigger] ranked(controls, true, inputs) && steps
            == whole_order(plain, inputs)
}

/// The whole order, given the order within each kind.
pub open spec fn whole_order(plain: Seq<usize>, inputs: Seq<usize>) -> Seq<Collapse> {
    round(plain, ControlBarDisplayMode::Full) + round(plain, ControlBarDisplayMode::Compact)
        + round(inputs, ControlBarDisplayMode::Full) + round(
        inputs,
        ControlBarDisplayMode::Compact,
    )
}

fn append_round(steps: &mut Vec<Collapse>, order: &Vec<usize>, from: ControlBarDisplayMode)
    ensures
        final(steps)@ == old(steps)@ + round(order@, from),
{
    let ghost before = steps@;
    let mut i: usize = 0;
    assert(steps@ =~= before + round(order@, from).take(0));
    while i < order.len()
        invariant
            i <= order@.len(),
            before == old(steps)@,
            steps@ == before + round(order@, from).take(i as int),
        decreases order@.len() - i,
    {
        steps.push(Collapse { index: order[i], from, to: from.next() });
        assert(steps@ =~= before + round(order@, from).take(i + 1));
        i += 1;
    }
    assert(round(order@, from).take(order@.len() as int) =~= round(order@, from));
}

/// The order in which controls become smaller.
pub fn collapse_order(controls: &Vec<BarControl>) -> (steps: Vec<Collapse>)
    ensures
        is_collapse_order(controls@, steps@),
        forall|i: int| 0 <= i < steps@.len() ==> (#[trigger] steps@[i]).index < controls@.len(),
{
    let plain = rank(controls, false);
    let inputs = rank(controls, true);
    let mut steps: Vec<Collapse> = Vec::new();
    append_round(&mut steps, &plain, ControlBarDisplayMode::Full);
    append_round(&mut steps, &plain, ControlBarDisplayMode::Compact);
    append_round(&mut steps, &inputs, ControlBarDisplayMode::Full);
    append_round(&mut steps, &inputs, ControlBarDisplayMode::Compact);
    assert(steps@ =~= whole_order(plain@, inputs@));
    assert forall|i: int| 0 <= i < steps@.len() implies (#[trigger] steps@[i]).index
        < controls@.len() by {
        let n = plain@.len() as int;
        let m = inputs@.len() as int;
        if i < n {
            assert(steps@[i].index == plain@[i]);
        } else if i < 2 * n {
            assert(steps@[i].index == plain@[i - n]);
        } else if i < 2 * n + m {
            assert(steps@[i].index == inputs@[i - 2 * n]);
        } else {
            assert(steps@[i].index == inputs@[i - 2 * n - m]);
        }
    }
    steps
}

/// How much of a control is shown after the first steps.
pub open spec fn mode_after(
    controls: Seq<BarControl>,
    steps: Seq<Collapse>,
    count: int,
    index: int,
) -> ControlBarDisplayMode
    decreases count,
{
    if count <= 0 {
        if controls[index].visible {
            ControlBarDisplayMode::Full
        } else {
            ControlBarDisplayMode::Icon
        }
    } else if steps[count - 1].index == index {
        steps[count - 1].to
    } else {
        mode_after(controls, steps, count - 1, index)
    }
}

/// How much of each control is shown after the first steps.
pub fn modes_after(controls: &Vec<BarControl>, steps: &Vec<Collapse>, count: usize) -> (modes: Vec<
    ControlBarDisplayMode,
>)
    requires
        count <= steps@.len(),
        forall|i: int|
            0 <= i < steps@.len() ==> (#[trigger] steps@[i]).index < controls@.len(),
    ensures
        modes@.len() == controls@.len(),
        forall|index: int|
            0 <= index < controls@.len() ==> #[trigger] modes@[index] == mode_after(
                controls@,
                steps@,
                count as int,
                index,
            ),
{
    let mut modes: Vec<ControlBarDisplayMode> = Vec::new();
    let mut i: usize = 0;
    while i < controls.len()
        invariant
            i <= controls@.len(),
            modes@.len() == i,
            forall|index: int|
                0 <= index < i ==> #[trigger] modes@[index] == mode_after(
                    controls@,
                    steps@,
                    0,
                    index,
                ),
        decreases controls@.len() - i,
    {
        modes.push(
            if controls[i].visible {
                ControlBarDisplayMode::Full
            } else {
                ControlBarDisplayMode::Icon
            },
        );
        i += 1;
    }
    let mut done: usize = 0;
    while done < count
        invariant
            done <= count <= steps@.len(),
            modes@.len() == controls@.len(),
            forall|i: int|
                0 <= i < steps@.len() ==> (#[trigger] steps@[i]).index < controls@.len(),
            forall|index: int|
                0 <= index < controls@.len() ==> #[trigger] modes@[index] == mode_after(
                    controls@,
                    steps@,
                    done as int,
                    index,
                ),
        decreases count - done,
    {
        let step = steps[done];
        modes.set(step.index, step.to);
        done += 1;
    }
    modes
}

/// A width is more than there is room for. What is no number never is.
pub open spec fn exceeds(width: FloatBits, room: FloatBits) -> bool {
    &&& width.magnitude() <= INFINITE_BITS
    &&& room.magnitude() <= INFINITE_BITS
    &&& width.rank() > room.rank()
}

fn is_over(width: FloatBits, room: FloatBits) -> (over: bool)
    ensures
        over == exceeds(width, room),
{
    width.0 % 0x8000_0000 <= INFINITE_BITS && room.0 % 0x8000_0000 <= INFINITE_BITS
        && width.order() > room.order()
}

/// How many steps are taken from one on: as few as make the width fit, and all
/// where none do. The widths are those before each step and after the last.
pub open spec fn steps_taken(widths: Seq<FloatBits>, room: FloatBits, from: int) -> int
    decreases widths.len() - from,
{
    if from < 0 || from >= widths.len() - 1 {
        widths.len() - 1
    } else if exceeds(widths[from], room) {
        steps_taken(widths, room, from + 1)
    } else {
        from
    }
}

/// How much of each control is shown where there is so much room: as much as
/// fits. The widths are those of the whole bar before each step and after the
/// last.
pub fn modes_that_fit(
    controls: &Vec<BarControl>,
    steps: &Vec<Collapse>,
    widths: &Vec<FloatBits>,
    room: FloatBits,
) -> (modes: Vec<ControlBarDisplayMode>)
    requires
        widths@.len() == steps@.len() + 1,
        forall|i: int|
            0 <= i < steps@.len() ==> (#[trigger] steps@[i]).index < controls@.len(),
    ensures
        modes@.len() == controls@.len(),
        forall|index: int|
            0 <= index < controls@.len() ==> #[trigger] modes@[index] == mode_after(
                controls@,
                steps@,
                steps_taken(widths@, room, 0),
                index,
            ),
{
    let mut count: usize = 0;
    while count < steps.len() && is_over(widths[count], room)
        invariant
            widths@.len() == steps@.len() + 1,
            count <= steps@.len(),
            steps_taken(widths@, room, 0) == steps_taken(widths@, room, count as int),
        decreases steps@.len() - count,
    {
        count += 1;
    }
    modes_after(controls, steps, count)
}

/// As few steps are taken as make the bar fit: before each of them it did not
/// fit, and after them it does, unless there is no step left.
pub proof fn law_no_step_is_taken_in_vain(widths: Seq<FloatBits>, room: FloatBits, from: int)
    requires
        0 <= from < widths.len(),
    ensures
        from <= steps_taken(widths, room, from) < widths.len(),
        forall|i: int|
            from <= i < steps_taken(widths, room, from) ==> exceeds(#[trigger] widths[i], room),
        steps_taken(widths, room, from) < widths.len() - 1 ==> !exceeds(
            widths[steps_taken(widths, room, from)],
            room,
        ),
    decreases widths.len() - from,
{
    if from < widths.len() - 1 && exceeds(widths[from], room) {
        law_no_step_is_taken_in_vain(widths, room, from + 1);
    }
}

/// A step is of an open text field.
pub open spec fn is_input_step(controls: Seq<BarControl>, step: Collapse) -> bool {
    controls[step.index as int].expanded_input
}

/// An open text field becomes smaller only after every other control has become
/// an icon: no step of another control comes after one of a text field.
pub proof fn law_open_fields_give_way_last(
    controls: Seq<BarControl>,
    steps: Seq<Collapse>,
    a: int,
    b: int,
)
    requires
        is_collapse_order(controls, steps),
        0 <= a < b < steps.len(),
        is_input_step(controls, steps[a]),
    ensures
        is_input_step(controls, steps[b]),
{
    let (plain, inputs) = choose|plain: Seq<usize>, inputs: Seq<usize>| #[trigger]
        ranked(controls, false, plain) && #[trigger] ranked(controls, true, inputs) && steps
            == whole_order(plain, inputs);
    let n = plain.len() as int;
    let m = inputs.len() as int;
    if a < n {
        assert(steps[a].index == plain[a]);
    } else if a < 2 * n {
        assert(steps[a].index == plain[a - n]);
    }
    assert(a >= 2 * n);
    if b < 2 * n + m {
        assert(steps[b].index == inputs[b - 2 * n]);
    } else {
        assert(steps[b].index == inputs[b - 2 * n - m]);
    }
}

/// Within a round the control with the lower priority gives way first, and of
/// two with the same priority the one further to the front.
pub proof fn law_lower_priorities_give_way_first(
    controls: Seq<BarControl>,
    order: Seq<usize>,
    expanded: bool,
    a: int,
    b: int,
)
    requires
        ranked(controls, expanded, order),
        0 <= a < b < order.len(),
    ensures
        controls[order[a] as int].priority <= controls[order[b] as int].priority,
        controls[order[a] as int].priority == controls[order[b] as int].priority ==> order[a]
            < order[b],
{
    assert(gives_way_before(controls, order[a], order[b]));
}

/// A control becomes smaller by one mode at a time, until it is an icon.
pub proof fn law_modes_become_smaller_one_by_one(mode: ControlBarDisplayMode)
    ensures
        mode != ControlBarDisplayMode::Icon ==> mode.smaller().place() == mode.place() + 1,
        mode == ControlBarDisplayMode::Icon ==> mode.smaller() == mode,
        0 <= mode.place() <= 2,
        ControlBarDisplayMode::Full.place() == 0,
        ControlBarDisplayMode::Icon.place() == 2,
{
}

/// Of an order by controls that give way each step is one of a visible control from a mode
/// to the next smaller one. Every visible control becomes an icon in the end, and has become
/// compact before. All controls of a kind are compact before one of them becomes an icon.
pub proof fn law_all_visible_controls_give_way_in_rounds(
    controls: Seq<BarControl>,
    steps: Seq<Collapse>,
    i: int,
    j: int,
    index: usize,
)
    requires
        is_collapse_order(controls, steps),
        0 <= i < steps.len(),
        0 <= j < steps.len(),
        index < controls.len(),
        controls[index as int].visible,
    ensures
        controls[steps[i].index as int].visible,
        steps[i].to.place() == steps[i].from.place() + 1,
        steps[i].from is Compact ==> exists|k: int|
            0 <= k < i && (#[trigger] steps[k]).index == steps[i].index && steps[k].from is Full,
        exists|k: int|
            0 <= k < steps.len() && (#[trigger] steps[k]).index == index && steps[k].to is Icon,
        controls[steps[i].index as int].expanded_input
            == controls[steps[j].index as int].expanded_input && steps[i].from is Full
            && steps[j].from is Compact ==> i < j,
{
    let (plain, inputs) = choose|plain: Seq<usize>, inputs: Seq<usize>| #[trigger]
        ranked(controls, false, plain) && #[trigger] ranked(controls, true, inputs) && steps
            == whole_order(plain, inputs);
    let (p, q) = (plain.len() as int, inputs.len() as int);
    lemma_whole_order(controls, plain, inputs, i);
    lemma_whole_order(controls, plain, inputs, j);
    if steps[i].from is Compact {
        let k = if i < 2 * p {
            i - p
        } else {
            i - q
        };
        lemma_whole_order(controls, plain, inputs, k);
        assert(steps[k].index == steps[i].index && steps[k].from is Full);
    }
    if controls[index as int].expanded_input {
        assert(inputs.contains(index));
        let m = choose|m: int| 0 <= m < q && inputs[m] == index;
        lemma_whole_order(controls, plain, inputs, 2 * p + q + m);
        assert(steps[2 * p + q + m].index == index && steps[2 * p + q + m].to is Icon);
    } else {
        assert(plain.contains(index));
        let m = choose|m: int| 0 <= m < p && plain[m] == index;
        lemma_whole_order(controls, plain, inputs, p + m);
        assert(steps[p + m].index == index && steps[p + m].to is Icon);
    }
}

proof fn lemma_whole_order(
    controls: Seq<BarControl>,
    plain: Seq<usize>,
    inputs: Seq<usize>,
    i: int,
)
    requires
        ranked(controls, false, plain),
        ranked(controls, true, inputs),
        0 <= i < 2 * plain.len() + 2 * inputs.len(),
    ensures
        whole_order(plain, inputs).len() == 2 * plain.len() + 2 * inputs.len(),
        ({
            let step = whole_order(plain, inputs)[i];
            let (p, q) = (plain.len() as int, inputs.len() as int);
            &&& step.index < controls.len()
            &&& controls[step.index as int].visible
            &&& if i < p {
                step.index == plain[i] && step.from is Full && step.to is Compact
                    && !controls[step.index as int].expanded_input
            } else if i < 2 * p {
                step.index == plain[i - p] && step.from is Compact && step.to is Icon
                    && !controls[step.index as int].expanded_input
            } else if i < 2 * p + q {
                step.index == inputs[i - 2 * p] && step.from is Full && step.to is Compact
                    && controls[step.index as int].expanded_input
            } else {
                step.index == inputs[i - 2 * p - q] && step.from is Compact && step.to is Icon
                    && controls[step.index as int].expanded_input
            }
        }),
{
    let (p, q) = (plain.len() as int, inputs.len() as int);
    let first = round(plain, ControlBarDisplayMode::Full);
    let second = round(plain, ControlBarDisplayMode::Compact);
    let third = round(inputs, ControlBarDisplayMode::Full);
    let fourth = round(inputs, ControlBarDisplayMode::Compact);
    let whole = whole_order(plain, inputs);
    if i < p {
        assert(whole[i] == first[i]);
        assert(plain[i] < controls.len());
    } else if i < 2 * p {
        assert(whole[i] == second[i - p]);
        assert(plain[i - p] < controls.len());
    } else if i < 2 * p + q {
        assert(whole[i] == third[i - 2 * p]);
        assert(inputs[i - 2 * p] < controls.len());
    } else {
        assert(whole[i] == fourth[i - 2 * p - q]);
        assert(inputs[i - 2 * p - q] < controls.len());
    }
}

/// Without a step a visible control is shown whole. A step changes its own control alone,
/// to the mode that it leads to.
pub proof fn law_steps_change_their_own_control(
    controls: Seq<BarControl>,
    steps: Seq<Collapse>,
    count: int,
    index: int,
)
    requires
        0 <= count < steps.len(),
        0 <= index < controls.len(),
    ensures
        controls[index].visible ==> mode_after(controls, steps, 0, index) is Full,
        mode_after(controls, steps, count + 1, index) == if steps[count].index == index {
            steps[count].to
        } else {
            mode_after(controls, steps, count, index)
        },
{
}

/// A width is more than there is room for if and only if both are numbers and it is the
/// greater one.
pub proof fn law_only_numbers_exceed(width: FloatBits, room: FloatBits)
    ensures
        width.finite() && room.finite() ==> (exceeds(width, room) <==> width.rank() > room.rank()),
        width.magnitude() > 0x7f80_0000 || room.magnitude() > 0x7f80_0000 ==> !exceeds(width, room),
        width.0 == 0x7f80_0000 && room.finite() ==> exceeds(width, room),
{
}

} // verus!
