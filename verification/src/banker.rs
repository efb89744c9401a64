use vstd::prelude::*;

verus! {

/// Ghost model of a banked memory: the full contents of every bank plus the
/// active-bank pointer.
pub ghost struct BankerView {
    pub banks: Seq<Seq<u8>>,
    pub pointer: u8,
}

impl BankerView {
    /// All 256 banks exist and each has the fixed bank width.
    pub open spec fn wf(self, width: nat) -> bool {
        &&& self.banks.len() == 256
        &&& forall|b: int| 0 <= b < 256 ==> (#[trigger] self.banks[b]).len() == width
    }

    /// The byte at `offset` in the active bank.
    pub open spec fn read_at(self, offset: int) -> u8 {
        self.banks[self.pointer as int][offset]
    }

    /// The model after writing `data` at `offset` in the active bank.
    pub open spec fn write_at(self, offset: int, data: u8) -> BankerView {
        BankerView {
            banks: self.banks.update(
                self.pointer as int,
                self.banks[self.pointer as int].update(offset, data),
            ),
            pointer: self.pointer,
        }
    }

    /// The model after switching the active bank.
    pub open spec fn with_pointer(self, p: u8) -> BankerView {
        BankerView { banks: self.banks, pointer: p }
    }
}

/// A memory of 256 equally sized banks; all reads and writes go through the
/// bank selected by `pointer`.
pub struct Banker {
    pub content: Vec<Vec<u8>>,
    pub pointer: u8,
}

impl View for Banker {
    type V = BankerView;

    open spec fn view(&self) -> BankerView {
        BankerView {
            banks: Seq::new(self.content@.len(), |b: int| self.content@[b]@),
            pointer: self.pointer,
        }
    }
}

impl Banker {
    /// Builds a banked memory whose 256 banks all start as a copy of
    /// `content`, with bank 0 active.
    pub fn new(content: Vec<u8>) -> (r: Banker)
        ensures
            r@.wf(content@.len()),
            r@.pointer == 0,
            forall|b: int| 0 <= b < 256 ==> #[trigger] r@.banks[b] == content@,
    {
        let mut banks: Vec<Vec<u8>> = Vec::new();
        while banks.len() < 256
            invariant
                banks@.len() <= 256,
                forall|b: int| 0 <= b < banks@.len() ==> #[trigger] banks@[b]@ == content@,
            decreases 256 - banks@.len(),
        {
            banks.push(content.clone());
        }
        Banker { content: banks, pointer: 0 }
    }

    /// Reads the byte at `offset` in the active bank.
    pub fn read(&self, offset: u8) -> (r: u8)
        requires
            self@.banks.len() == 256,
            offset < self@.banks[self@.pointer as int].len(),
        ensures
            r == self@.read_at(offset as int),
    {
        self.content[self.pointer as usize][offset as usize]
    }

    /// Writes `data` at `offset` in the active bank; every other byte of
    /// every bank is untouched.
    pub fn write(&mut self, offset: u8, data: u8)
        requires
            old(self)@.banks.len() == 256,
            offset < old(self)@.banks[old(self)@.pointer as int].len(),
        ensures
            final(self)@ == old(self)@.write_at(offset as int, data),
    {
        let bank: &mut Vec<u8> = &mut self.content[self.pointer as usize];
        bank.set(offset as usize, data);
        proof {
            assert(final(self)@.banks =~= old(self)@.write_at(offset as int, data).banks);
        }
    }

    /// Switches the active bank; bank contents are untouched.
    pub fn set_pointer(&mut self, p: u8)
        ensures
            final(self)@ == old(self)@.with_pointer(p),
    {
        self.pointer = p;
    }

    /// Reads the active-bank pointer.
    pub fn get_pointer(&self) -> (r: u8)
        ensures
            r == self@.pointer,
    {
        self.pointer
    }
}

/// Bank isolation: a value written while bank `p1` is active is still there
/// after switching to any other bank `p2`, writing there, and switching back
/// to `p1`.
pub proof fn lemma_bank_isolation(
    m: BankerView,
    width: nat,
    p1: u8,
    p2: u8,
    offset: int,
    data: u8,
    other_offset: int,
    other_data: u8,
)
    requires
        m.wf(width),
        0 <= offset < width,
        0 <= other_offset < width,
        p1 != p2,
    ensures
        m.with_pointer(p1).write_at(offset, data).with_pointer(p2).write_at(
            other_offset,
            other_data,
        ).with_pointer(p1).read_at(offset) == data,
{
}

} // verus!
