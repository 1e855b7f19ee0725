use vstd::prelude::*;

use crate::types::AoType;

verus! {

/// 256 cells: the leaves of the memory tree.
struct Chip {
    data: Vec<AoType>,
}

/// 256 chips, each present once written.
struct Page {
    chips: Vec<Option<Box<Chip>>>,
}

/// 256 pages, each present once written.
struct Section {
    pages: Vec<Option<Box<Page>>>,
}

/// Sparse memory addressed by a `u32`, a four-level tree whose levels are
/// taken from the address's bytes (section, page, chip, cell). Only the tiles
/// on the path to a written cell exist; a cell never written reads `Int(0)`.
pub struct Memory {
    sections: Vec<Option<Box<Section>>>,
}

pub open spec fn zero() -> AoType {
    AoType::AoInt(0)
}

impl Chip {
    spec fn cell(&self, i: int) -> AoType {
        if 0 <= i < self.data@.len() {
            self.data@[i]
        } else {
            zero()
        }
    }

    fn new() -> (r: Chip)
        ensures
            forall|i: int| r.cell(i) == zero(),
    {
        Chip { data: Vec::new() }
    }

    fn get(&self, index: u32) -> (r: AoType)
        ensures
            r == self.cell(index as int),
    {
        let i = index as usize;
        if i < self.data.len() {
            self.data[i].clone()
        } else {
            AoType::AoInt(0)
        }
    }

    fn set(&mut self, index: u32, value: AoType)
        requires
            index < 256,
        ensures
            forall|i: int|
                #![trigger final(self).cell(i)]
                final(self).cell(i) == if i == index {
                    value
                } else {
                    old(self).cell(i)
                },
    {
        let i = index as usize;
        while self.data.len() <= i
            invariant
                i < 256,
                self.data@.len() >= old(self).data@.len(),
                forall|j: int| 0 <= j < self.data@.len() ==> #[trigger] self.data@[j] == old(self).cell(j),
            decreases 256 - self.data@.len(),
        {
            self.data.push(AoType::AoInt(0));
        }
        self.data.set(i, value);
    }
}

impl Page {
    spec fn cell(&self, i: int) -> AoType {
        let c = i / 256;
        if 0 <= c < self.chips@.len() {
            match self.chips@[c] {
                Some(chip) => chip.cell(i % 256),
                None => zero(),
            }
        } else {
            zero()
        }
    }

    fn new() -> (r: Page)
        ensures
            forall|i: int| r.cell(i) == zero(),
    {
        Page { chips: Vec::new() }
    }

    fn get(&self, index: u32) -> (r: AoType)
        ensures
            r == self.cell(index as int),
    {
        let c = (index / 256) as usize;
        if c < self.chips.len() {
            match &self.chips[c] {
                Some(chip) => chip.get(index % 256),
                None => AoType::AoInt(0),
            }
        } else {
            AoType::AoInt(0)
        }
    }

    fn set(&mut self, index: u32, value: AoType)
        requires
            index < 0x1_0000,
        ensures
            forall|i: int|
                #![trigger final(self).cell(i)]
                0 <= i < 0x1_0000 ==> final(self).cell(i) == if i == index {
                    value
                } else {
                    old(self).cell(i)
                },
    {
        let c = (index / 256) as usize;
        while self.chips.len() <= c
            invariant
                c < 256,
                self.chips@.len() >= old(self).chips@.len(),
                forall|j: int|
                    0 <= j < self.chips@.len() ==> #[trigger] self.chips@[j] == if j < old(
                        self,
                    ).chips@.len() {
                        old(self).chips@[j]
                    } else {
                        None
                    },
            decreases 256 - self.chips@.len(),
        {
            self.chips.push(None);
        }
        let mut slot: Option<Box<Chip>> = None;
        self.chips.set_and_swap(c, &mut slot);
        let mut chip = match slot {
            Some(chip) => chip,
            None => Box::new(Chip::new()),
        };
        let ghost before = *chip;
        chip.set(index % 256, value);
        self.chips.set(c, Some(chip));
        assert forall|i: int| 0 <= i < 0x1_0000 implies #[trigger] self.cell(i) == if i == index {
            value
        } else {
            old(self).cell(i)
        } by {
            if i / 256 == c as int {
                assert(before.cell(i % 256) == old(self).cell(i));
                assert(i == index <==> i % 256 == index % 256);
            }
        }
    }
}

impl Section {
    spec fn cell(&self, i: int) -> AoType {
        let p = i / 0x1_0000;
        if 0 <= p < self.pages@.len() {
            match self.pages@[p] {
                Some(page) => page.cell(i % 0x1_0000),
                None => zero(),
            }
        } else {
            zero()
        }
    }

    fn new() -> (r: Section)
        ensures
            forall|i: int| r.cell(i) == zero(),
    {
        Section { pages: Vec::new() }
    }

    fn get(&self, index: u32) -> (r: AoType)
        ensures
            r == self.cell(index as int),
    {
        let p = (index / 0x1_0000) as usize;
        if p < self.pages.len() {
            match &self.pages[p] {
                Some(page) => page.get(index % 0x1_0000),
                None => AoType::AoInt(0),
            }
        } else {
            AoType::AoInt(0)
        }
    }

    fn set(&mut self, index: u32, value: AoType)
        requires
            index < 0x100_0000,
        ensures
            forall|i: int|
                #![trigger final(self).cell(i)]
                0 <= i < 0x100_0000 ==> final(self).cell(i) == if i == index {
                    value
                } else {
                    old(self).cell(i)
                },
    {
        let p = (index / 0x1_0000) as usize;
        while self.pages.len() <= p
            invariant
                p < 256,
                self.pages@.len() >= old(self).pages@.len(),
                forall|j: int|
                    0 <= j < self.pages@.len() ==> #[trigger] self.pages@[j] == if j < old(
                        self,
                    ).pages@.len() {
                        old(self).pages@[j]
                    } else {
                        None
                    },
            decreases 256 - self.pages@.len(),
        {
            self.pages.push(None);
        }
        let mut slot: Option<Box<Page>> = None;
        self.pages.set_and_swap(p, &mut slot);
        let mut page = match slot {
            Some(page) => page,
            None => Box::new(Page::new()),
        };
        let ghost before = *page;
        page.set(index % 0x1_0000, value);
        self.pages.set(p, Some(page));
        assert forall|i: int| 0 <= i < 0x100_0000 implies #[trigger] self.cell(i) == if i
            == index {
            value
        } else {
            old(self).cell(i)
        } by {
            if i / 0x1_0000 == p as int {
                assert(before.cell(i % 0x1_0000) == old(self).cell(i));
                assert(i == index <==> i % 0x1_0000 == index % 0x1_0000);
            }
        }
    }
}

impl Memory {
    spec fn cell(&self, i: int) -> AoType {
        let s = i / 0x100_0000;
        if 0 <= s < self.sections@.len() {
            match self.sections@[s] {
                Some(section) => section.cell(i % 0x100_0000),
                None => zero(),
            }
        } else {
            zero()
        }
    }

    /// Every cell at its address.
    pub closed spec fn view(&self) -> Map<u32, AoType> {
        Map::new(|i: u32| true, |i: u32| self.cell(i as int))
    }

    /// A memory in which every cell reads `Int(0)`.
    pub fn new() -> (r: Memory)
        ensures
            r@ == Map::new(|i: u32| true, |i: u32| zero()),
    {
        let r = Memory { sections: Vec::new() };
        assert(r@ =~= Map::new(|i: u32| true, |i: u32| zero()));
        r
    }

    /// The cell at `index`: the value last written there, or `Int(0)`.
    pub fn get(&self, index: u32) -> (r: AoType)
        ensures
            r == self@[index],
    {
        let s = (index / 0x100_0000) as usize;
        if s < self.sections.len() {
            match &self.sections[s] {
                Some(section) => section.get(index % 0x100_0000),
                None => AoType::AoInt(0),
            }
        } else {
            AoType::AoInt(0)
        }
    }

    /// Writes `value` to the cell at `index`, creating the tiles on its path.
    pub fn set(&mut self, index: u32, value: AoType)
        ensures
            final(self)@ == old(self)@.insert(index, value),
    {
        let s = (index / 0x100_0000) as usize;
        while self.sections.len() <= s
            invariant
                s < 256,
                self.sections@.len() >= old(self).sections@.len(),
                forall|j: int|
                    0 <= j < self.sections@.len() ==> #[trigger] self.sections@[j] == if j < old(
                        self,
                    ).sections@.len() {
                        old(self).sections@[j]
                    } else {
                        None
                    },
            decreases 256 - self.sections@.len(),
        {
            self.sections.push(None);
        }
        let mut slot: Option<Box<Section>> = None;
        self.sections.set_and_swap(s, &mut slot);
        let mut section = match slot {
            Some(section) => section,
            None => Box::new(Section::new()),
        };
        let ghost before = *section;
        section.set(index % 0x100_0000, value);
        self.sections.set(s, Some(section));
        assert forall|i: u32| #[trigger] self.cell(i as int) == if i == index {
            value
        } else {
            old(self).cell(i as int)
        } by {
            if i / 0x100_0000 == s as int {
                assert(before.cell(i as int % 0x100_0000) == old(self).cell(i as int));
                assert(i == index <==> i % 0x100_0000 == index % 0x100_0000);
            }
        }
        assert(self@ =~= old(self)@.insert(index, value));
    }
}

} // verus!
