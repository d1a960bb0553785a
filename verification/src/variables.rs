//! Variables of the environment, and the split of them by section.

use vstd::prelude::*;
use crate::bytes::copy_bytes;

verus! {

/// A variable: its name and its value.
pub ghost struct VariableView {
    pub name: Seq<u8>,
    pub value: Seq<u8>,
}

/// A variable of the environment.
#[derive(Debug)]
pub struct Variable {
    pub name: Vec<u8>,
    pub value: Vec<u8>,
}

impl View for Variable {
    type V = VariableView;

    open spec fn view(&self) -> VariableView {
        VariableView { name: self.name@, value: self.value@ }
    }
}

/// The views of a sequence of variables.
pub open spec fn variable_views(s: Seq<Variable>) -> Seq<VariableView> {
    s.map_values(|v: Variable| v@)
}

/// Whether a name belongs to a section: it begins with the section's name
/// and an underscore.
pub open spec fn in_section(name: Seq<u8>, section: Seq<u8>) -> bool {
    name.len() > section.len() && name.take(section.len() as int + 1) == section.push(95u8)
}

/// A name of a section, with `#` in the place of the underscore that
/// follows the section's name.
pub open spec fn marked(name: Seq<u8>, section: Seq<u8>) -> Seq<u8> {
    section.push(35u8) + name.skip(section.len() as int + 1)
}

/// The variables of a section, in their order, with their names marked.
pub open spec fn section_of(vars: Seq<VariableView>, section: Seq<u8>) -> Seq<VariableView>
    decreases vars.len(),
{
    if vars.len() == 0 {
        Seq::empty()
    } else if in_section(vars.last().name, section) {
        section_of(vars.drop_last(), section).push(
            VariableView { name: marked(vars.last().name, section), value: vars.last().value },
        )
    } else {
        section_of(vars.drop_last(), section)
    }
}

/// The variables outside a section, in their order.
pub open spec fn outside_of(vars: Seq<VariableView>, section: Seq<u8>) -> Seq<VariableView>
    decreases vars.len(),
{
    if vars.len() == 0 {
        Seq::empty()
    } else if in_section(vars.last().name, section) {
        outside_of(vars.drop_last(), section)
    } else {
        outside_of(vars.drop_last(), section).push(vars.last())
    }
}

/// Whether the name belongs to the section.
pub fn belongs_to(name: &Vec<u8>, section: &Vec<u8>) -> (out: bool)
    ensures
        out == in_section(name@, section@),
{
    let n: usize = section.len();
    if name.len() <= n {
        return false;
    }
    let mut i: usize = 0;
    while i < n
        invariant
            i <= n,
            n == section.len(),
            n < name.len(),
            forall|j: int| 0 <= j < i ==> name@[j] == section@[j],
        decreases n - i,
    {
        if name[i] != section[i] {
            assert(name@.take(n as int + 1)[i as int] != section@.push(95u8)[i as int]);
            return false;
        }
        i += 1;
    }
    if name[n] != 95u8 {
        assert(name@.take(n as int + 1)[n as int] != section@.push(95u8)[n as int]);
        return false;
    }
    assert(name@.take(n as int + 1) =~= section@.push(95u8));
    true
}

fn mark(name: &Vec<u8>, section: &Vec<u8>) -> (out: Vec<u8>)
    requires
        in_section(name@, section@),
    ensures
        out@ == marked(name@, section@),
{
    let mut out: Vec<u8> = copy_bytes(section);
    out.push(35u8);
    assert(section.len() < name.len());
    let mut i: usize = section.len() + 1;
    let ghost head = out@;
    assert(out@ =~= head + name@.subrange(section.len() as int + 1, i as int));
    while i < name.len()
        invariant
            section.len() + 1 <= i <= name.len(),
            head == section@.push(35u8),
            out@ == head + name@.subrange(section.len() as int + 1, i as int),
        decreases name.len() - i,
    {
        out.push(name[i]);
        i += 1;
        assert(head + name@.subrange(section.len() as int + 1, i as int) =~= (head
            + name@.subrange(section.len() as int + 1, i - 1)).push(name@[i - 1]));
    }
    assert(name@.subrange(section.len() as int + 1, name@.len() as int) =~= name@.skip(
        section.len() as int + 1,
    ));
    out
}

/// Takes the variables of a section out of `envs` and returns them with
/// their names marked; the others stay in `envs`, in their order.
pub fn mk_environment(envs: &mut Vec<Variable>, prefix: &Vec<u8>) -> (out: Vec<Variable>)
    ensures
        variable_views(out@) == section_of(variable_views(old(envs)@), prefix@),
        variable_views(final(envs)@) == outside_of(variable_views(old(envs)@), prefix@),
{
    let ghost all = variable_views(envs@);
    let mut inside: Vec<Variable> = Vec::new();
    let mut outside: Vec<Variable> = Vec::new();
    let mut i: usize = 0;
    assert(variable_views(inside@) =~= section_of(all.take(0), prefix@));
    assert(variable_views(outside@) =~= outside_of(all.take(0), prefix@));
    while i < envs.len()
        invariant
            i <= envs.len(),
            all == variable_views(envs@),
            variable_views(inside@) == section_of(all.take(i as int), prefix@),
            variable_views(outside@) == outside_of(all.take(i as int), prefix@),
        decreases envs.len() - i,
    {
        assert(all.take(i + 1).drop_last() =~= all.take(i as int));
        assert(all.take(i + 1).last() == envs@[i as int]@);
        let var = &envs[i];
        if belongs_to(&var.name, prefix) {
            let ghost earlier = inside@;
            let moved = Variable { name: mark(&var.name, prefix), value: copy_bytes(&var.value) };
            inside.push(moved);
            assert(variable_views(inside@) =~= variable_views(earlier).push(moved@));
        } else {
            let ghost earlier = outside@;
            let kept = Variable { name: copy_bytes(&var.name), value: copy_bytes(&var.value) };
            outside.push(kept);
            assert(variable_views(outside@) =~= variable_views(earlier).push(kept@));
        }
        i += 1;
    }
    assert(all.take(all.len() as int) =~= all);
    *envs = outside;
    inside
}

} // verus!
