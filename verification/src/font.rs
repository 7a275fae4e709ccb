//! The preferred font families.
//!
//! A family name read from the configuration is an owned string, but font
//! descriptions want names that live for the whole process. Each distinct
//! name is made to live that long once, the first time it is seen, and the
//! same copy is handed out every time after.

use crate::config::{Config, INTERFACE_FONT_DEFAULT, MONOSPACE_FONT_DEFAULT};
use crate::text::{leak, owned, str_eq};
use vstd::prelude::*;

verus! {

/// The family names handed out so far, each once.
pub struct FamilyNames {
    names: Vec<&'static str>,
}

impl FamilyNames {
    /// The names held, in the order they were first seen.
    pub closed spec fn view(&self) -> Seq<Seq<char>> {
        self.names@.map_values(|n: &'static str| n@)
    }

    /// No name is held twice.
    pub closed spec fn wf(&self) -> bool {
        forall|i: int, j: int|
            0 <= i < j < self.names@.len() ==> self.names@[i]@ != self.names@[j]@
    }

    /// A table holding no names.
    pub fn new() -> (r: Self)
        ensures
            r.wf(),
            r.view() == Seq::<Seq<char>>::empty(),
    {
        let r = FamilyNames { names: Vec::new() };
        assert(r.view() =~= Seq::<Seq<char>>::empty());
        r
    }
}

/// The process-long copy of `family`, made only the first time it is seen.
pub fn intern(table: &mut FamilyNames, family: &str) -> (r: &'static str)
    requires
        old(table).wf(),
    ensures
        final(table).wf(),
        r@ == family@,
        final(table).view().contains(family@),
        final(table).view() == interned(old(table).view(), family@),
{
    let mut i: usize = 0;
    while i < table.names.len()
        invariant
            i <= table.names@.len(),
            table.wf(),
            forall|j: int| 0 <= j < i ==> table.names@[j]@ != family@,
        decreases table.names@.len() - i,
    {
        let name: &'static str = table.names[i];
        if str_eq(name, family) {
            assert(table.view()[i as int] == family@);
            return name;
        }
        i = i + 1;
    }
    let value: &'static str = leak(owned(family));
    let ghost before = table.view();
    assert(!before.contains(family@)) by {
        if before.contains(family@) {
            let k = choose|k: int| 0 <= k < before.len() && before[k] == family@;
            assert(table.names@[k]@ == family@);
        }
    }
    table.names.push(value);
    assert(table.view() =~= before.push(family@));
    assert(table.view()[before.len() as int] == family@);
    value
}

/// The families fonts are built from.
#[derive(Clone, Copy)]
pub struct Families {
    /// The interface family.
    pub interface: &'static str,
    /// The monospace family.
    pub monospace: &'static str,
}

/// The configured families, and the table their names were interned in.
pub struct FontFamilies {
    table: FamilyNames,
    current: Families,
}

impl FontFamilies {
    /// The interned names.
    pub closed spec fn names(&self) -> Seq<Seq<char>> {
        self.table.view()
    }

    /// The families in force.
    pub closed spec fn current(&self) -> Families {
        self.current
    }

    /// The interned names hold each name once.
    pub closed spec fn wf(&self) -> bool {
        self.table.wf()
    }

    /// The defaults, in force until [`set_families`] runs.
    pub fn new() -> (r: Self)
        ensures
            r.wf(),
            r.current().interface@ == INTERFACE_FONT_DEFAULT@,
            r.current().monospace@ == MONOSPACE_FONT_DEFAULT@,
    {
        FontFamilies {
            table: FamilyNames::new(),
            current: Families { interface: INTERFACE_FONT_DEFAULT, monospace: MONOSPACE_FONT_DEFAULT },
        }
    }
}

/// Point the fonts at the families in `config`.
pub fn set_families(fonts: &mut FontFamilies, config: &Config)
    requires
        old(fonts).wf(),
    ensures
        final(fonts).wf(),
        final(fonts).current().interface@ == config.interface_font@,
        final(fonts).current().monospace@ == config.monospace_font@,
        final(fonts).names().contains(config.interface_font@),
        final(fonts).names().contains(config.monospace_font@),
{
    let interface = intern(&mut fonts.table, config.interface_font.as_str());
    let ghost middle = fonts.table.view();
    let monospace = intern(&mut fonts.table, config.monospace_font.as_str());
    assert(fonts.table.view().contains(config.interface_font@)) by {
        if !middle.contains(config.monospace_font@) {
            let k = choose|k: int| 0 <= k < middle.len() && middle[k] == config.interface_font@;
            assert(fonts.table.view()[k] == config.interface_font@);
        }
    }
    fonts.current = Families { interface, monospace };
}

/// The families in force.
pub fn families(fonts: &FontFamilies) -> (r: Families)
    ensures
        r == fonts.current(),
{
    fonts.current
}

/// Interning `family` when the names held are `names`.
pub open spec fn interned(names: Seq<Seq<char>>, family: Seq<char>) -> Seq<Seq<char>> {
    if names.contains(family) {
        names
    } else {
        names.push(family)
    }
}

/// Interning a name a second time holds nothing new: a family is made to
/// live for the process once, however often it is asked for.
pub proof fn lemma_interning_is_stable(names: Seq<Seq<char>>, family: Seq<char>)
    ensures
        interned(interned(names, family), family) == interned(names, family),
{
    if !names.contains(family) {
        assert(names.push(family)[names.len() as int] == family);
    }
}

/// A font's weight.
#[derive(Clone, Copy, Debug, PartialEq, Eq, Structural)]
pub enum Weight {
    Light,
    Normal,
    Semibold,
    Bold,
}

/// A font: a family and a weight; stretch and style are always normal.
#[derive(Clone, Copy, Debug, PartialEq, Eq)]
pub struct Font {
    pub family: &'static str,
    pub weight: Weight,
}

/// The interface family at normal weight.
pub fn default(fonts: &FontFamilies) -> (r: Font)
    ensures
        r.family == fonts.current().interface,
        r.weight == Weight::Normal,
{
    Font { family: fonts.current.interface, weight: Weight::Normal }
}

/// The interface family, light.
pub fn light(fonts: &FontFamilies) -> (r: Font)
    ensures
        r.family == fonts.current().interface,
        r.weight == Weight::Light,
{
    Font { family: fonts.current.interface, weight: Weight::Light }
}

/// The interface family, semibold.
pub fn semibold(fonts: &FontFamilies) -> (r: Font)
    ensures
        r.family == fonts.current().interface,
        r.weight == Weight::Semibold,
{
    Font { family: fonts.current.interface, weight: Weight::Semibold }
}

/// The interface family, bold.
pub fn bold(fonts: &FontFamilies) -> (r: Font)
    ensures
        r.family == fonts.current().interface,
        r.weight == Weight::Bold,
{
    Font { family: fonts.current.interface, weight: Weight::Bold }
}

/// The monospace family at normal weight.
pub fn mono(fonts: &FontFamilies) -> (r: Font)
    ensures
        r.family == fonts.current().monospace,
        r.weight == Weight::Normal,
{
    Font { family: fonts.current.monospace, weight: Weight::Normal }
}

} // verus!
