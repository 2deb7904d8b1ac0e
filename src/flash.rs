//! The flash slot store: a fixed set of sectors, each holding one
//! length-prefixed record.
//!
//! A sector image is a 4-byte little-endian length followed by the payload
//! region; payload bytes past the length stay at the erased value.
//!
//! Slots are numbered from 0 everywhere: in `read`, `write` and the `slots`
//! listing. [`FlashStore`] holds the current image of each slot's sector;
//! the board programs a sector from it after each successful write.
use vstd::prelude::*;

use crate::Error;

verus! {

/// Size of one erasable flash sector.
pub const FLASH_SECTOR_SIZE: usize = 4096;

/// Number of configured slots.
pub const SLOT_COUNT: usize = 4;

/// Largest payload a slot holds: the sector less its length prefix.
pub const SLOT_CAPACITY: usize = 4092;

/// The value of an erased flash byte.
pub const ERASED_BYTE: u8 = 0xff;

/// Offset, from the start of flash, of the first slot's sector.
pub const FIRST_SLOT_OFFSET: u32 = 0x100000;

/// Address at which flash is mapped for reading.
pub const FLASH_XIP_BASE: u32 = 0x10000000;

/// The four bytes of `n`, least significant first.
pub open spec fn le_u32_bytes(n: nat) -> Seq<u8> {
    seq![
        (n % 256) as u8,
        ((n / 256) % 256) as u8,
        ((n / 65536) % 256) as u8,
        ((n / 16777216) % 256) as u8,
    ]
}

/// The number that four little-endian bytes stand for.
pub open spec fn le_u32_value(b: Seq<u8>) -> nat {
    (b[0] as nat) + (b[1] as nat) * 256 + (b[2] as nat) * 65536 + (b[3] as nat) * 16777216
}

/// `n` erased bytes.
pub open spec fn erased(n: nat) -> Seq<u8> {
    Seq::new(n, |i: int| ERASED_BYTE)
}

/// The full sector image that stores `p`.
pub open spec fn record_image(p: Seq<u8>) -> Seq<u8> {
    le_u32_bytes(p.len()) + p + erased((SLOT_CAPACITY - p.len()) as nat)
}

/// The payload a sector holds: the bytes its length prefix covers, or
/// nothing where the prefix is larger than a slot can hold.
pub open spec fn record_payload(sector: Seq<u8>) -> Seq<u8> {
    let n = le_u32_value(sector);
    if n <= SLOT_CAPACITY {
        sector.subrange(4, 4 + n as int)
    } else {
        seq![]
    }
}

/// Decoding the image of a payload that fits gives the payload back.
pub proof fn lemma_record_round_trip(p: Seq<u8>)
    requires
        p.len() <= SLOT_CAPACITY,
    ensures
        record_image(p).len() == FLASH_SECTOR_SIZE,
        record_payload(record_image(p)) == p,
{
    let n = p.len();
    let img = record_image(p);
    assert(n / 65536 == 0) by (nonlinear_arith)
        requires n <= 4092;
    assert(n / 16777216 == 0) by (nonlinear_arith)
        requires n <= 4092;
    assert(n / 256 < 256) by (nonlinear_arith)
        requires n <= 4092;
    assert(n == n % 256 + (n / 256) * 256) by (nonlinear_arith);
    assert(le_u32_value(img) == n);
    assert(img.subrange(4, 4 + n as int) =~= p);
}

/// Absolute flash offset of a slot's sector.
pub open spec fn slot_offset_spec(slot: nat) -> nat {
    (FIRST_SLOT_OFFSET + slot * FLASH_SECTOR_SIZE) as nat
}

/// The human-readable name of a slot: `slot1` for the first.
pub open spec fn slot_name_spec(slot: nat) -> Seq<u8> {
    seq![115u8, 108u8, 111u8, 116u8, (49 + slot) as u8]
}

pub fn slot_offset(slot: usize) -> (r: u32)
    requires
        slot < SLOT_COUNT,
    ensures
        r == slot_offset_spec(slot as nat),
{
    let s: u32 = slot as u32;
    0x100000u32 + s * 4096u32
}

pub fn slot_name(slot: usize) -> (r: Vec<u8>)
    requires
        slot < SLOT_COUNT,
    ensures
        r@ == slot_name_spec(slot as nat),
{
    let r: Vec<u8> = vec![115u8, 108u8, 111u8, 116u8, 49u8 + slot as u8];
    assert(r@ =~= slot_name_spec(slot as nat));
    r
}

/// The sector image of one slot record, built from a payload.
pub struct StoredData {
    size: u32,
    data: Vec<u8>,
}

impl StoredData {
    pub closed spec fn payload(&self) -> Seq<u8> {
        self.data@.take(self.size as int)
    }

    pub closed spec fn wf(&self) -> bool {
        &&& self.data@.len() == SLOT_CAPACITY
        &&& self.size <= SLOT_CAPACITY
        &&& forall|i: int| self.size <= i < SLOT_CAPACITY ==> self.data@[i] == ERASED_BYTE
    }

    /// Builds the record for `data`, or says why it cannot be stored.
    pub fn new(data: &[u8]) -> (r: Result<StoredData, Error>)
        ensures
            data@.len() <= SLOT_CAPACITY <==> r is Ok,
            r is Err ==> r->Err_0 == Error::DataTooLarge,
            r is Ok ==> r->Ok_0.wf() && r->Ok_0.payload() == data@,
    {
        if data.len() > SLOT_CAPACITY {
            return Err(Error::DataTooLarge);
        }
        let mut buf: Vec<u8> = Vec::with_capacity(SLOT_CAPACITY);
        let mut i: usize = 0;
        while i < data.len()
            invariant
                i <= data@.len() <= SLOT_CAPACITY,
                buf@ =~= data@.take(i as int),
            decreases data@.len() - i,
        {
            buf.push(data[i]);
            i += 1;
        }
        while i < SLOT_CAPACITY
            invariant
                data@.len() <= i <= SLOT_CAPACITY,
                buf@.len() == i,
                buf@.take(data@.len() as int) =~= data@,
                forall|j: int| data@.len() <= j < i ==> buf@[j] == ERASED_BYTE,
            decreases SLOT_CAPACITY - i,
        {
            buf.push(ERASED_BYTE);
            i += 1;
        }
        Ok(StoredData { size: data.len() as u32, data: buf })
    }

    /// The payload length this record declares.
    pub fn size(&self) -> (r: u32)
        requires
            self.wf(),
        ensures
            r as nat == self.payload().len(),
            r <= SLOT_CAPACITY,
    {
        self.size
    }

    /// The full sector image of this record.
    pub fn to_sector(&self) -> (r: Vec<u8>)
        requires
            self.wf(),
        ensures
            r@ == record_image(self.payload()),
    {
        let n = self.size;
        let mut out: Vec<u8> = Vec::with_capacity(FLASH_SECTOR_SIZE);
        out.push((n % 256) as u8);
        out.push(((n / 256) % 256) as u8);
        out.push(((n / 65536) % 256) as u8);
        out.push(((n / 16777216) % 256) as u8);
        let mut i: usize = 0;
        while i < SLOT_CAPACITY
            invariant
                self.wf(),
                n == self.size,
                i <= SLOT_CAPACITY,
                out@.len() == 4 + i,
                out@.take(4) =~= le_u32_bytes(n as nat),
                forall|j: int| 0 <= j < i ==> out@[4 + j] == self.data@[j],
            decreases SLOT_CAPACITY - i,
        {
            out.push(self.data[i]);
            i += 1;
        }
        let ghost p = self.payload();
        let ghost img = record_image(p);
        assert(p.len() == n);
        assert(le_u32_bytes(p.len()).len() == 4);
        assert(erased((SLOT_CAPACITY - p.len()) as nat).len() == SLOT_CAPACITY - n);
        assert(img.len() == out@.len());
        let ghost a = le_u32_bytes(p.len());
        let ghost c = erased((SLOT_CAPACITY - p.len()) as nat);
        assert forall|j: int| 0 <= j < out@.len() implies out@[j] == img[j] by {
            if j < 4 {
                assert(out@[j] == out@.take(4)[j]);
                assert(img[j] == (a + p)[j]);
            } else {
                let k = j - 4;
                assert(out@[4 + k] == self.data@[k]);
                if k < n {
                    assert(img[j] == (a + p)[j]);
                    assert(img[j] == p[k]);
                } else {
                    assert(img[j] == c[j - 4 - n]);
                }
            }
        }
        assert(out@ =~= img);
        out
    }
}

/// Reads the payload out of a sector image, treating a length prefix that
/// no slot can hold as an empty record.
pub fn decode_record(sector: &[u8]) -> (r: Vec<u8>)
    requires
        sector@.len() == FLASH_SECTOR_SIZE,
    ensures
        r@ == record_payload(sector@),
{
    let n: u64 = sector[0] as u64 + (sector[1] as u64) * 256 + (sector[2] as u64) * 65536
        + (sector[3] as u64) * 16777216;
    assert(n == le_u32_value(sector@));
    let mut out: Vec<u8> = Vec::new();
    if n <= SLOT_CAPACITY as u64 {
        let end: usize = 4 + n as usize;
        let mut i: usize = 4;
        while i < end
            invariant
                4 <= i <= end <= FLASH_SECTOR_SIZE,
                sector@.len() == FLASH_SECTOR_SIZE,
                out@ =~= sector@.subrange(4, i as int),
            decreases end - i,
        {
            out.push(sector[i]);
            i += 1;
        }
    }
    out
}

/// Whether a sequence of sectors has the shape of the slot area.
pub open spec fn store_wf(st: Seq<Seq<u8>>) -> bool {
    &&& st.len() == SLOT_COUNT
    &&& forall|i: int| 0 <= i < st.len() ==> #[trigger] st[i].len() == FLASH_SECTOR_SIZE
}

/// What writing `p` to slot `s` of the sectors `st` gives: the new
/// sectors, or the error.
pub open spec fn write_result(st: Seq<Seq<u8>>, s: int, p: Seq<u8>) -> Result<
    Seq<Seq<u8>>,
    Error,
> {
    if !(0 <= s < SLOT_COUNT) {
        Err(Error::InvalidSlotNumber)
    } else if p.len() > SLOT_CAPACITY {
        Err(Error::DataTooLarge)
    } else {
        Ok(st.update(s, record_image(p)))
    }
}

/// What reading slot `s` of the sectors `st` gives.
pub open spec fn read_result(st: Seq<Seq<u8>>, s: int) -> Result<Seq<u8>, Error> {
    if !(0 <= s < SLOT_COUNT) {
        Err(Error::InvalidSlotNumber)
    } else {
        Ok(record_payload(st[s]))
    }
}

/// The sectors of every slot, in slot order.
pub struct FlashStore {
    sectors: Vec<Vec<u8>>,
}

impl View for FlashStore {
    type V = Seq<Seq<u8>>;

    closed spec fn view(&self) -> Seq<Seq<u8>> {
        self.sectors@.map_values(|v: Vec<u8>| v@)
    }
}

/// A sector with every byte erased.
fn erased_sector() -> (r: Vec<u8>)
    ensures
        r@ == erased(FLASH_SECTOR_SIZE as nat),
{
    let mut v: Vec<u8> = Vec::with_capacity(FLASH_SECTOR_SIZE);
    let mut i: usize = 0;
    while i < FLASH_SECTOR_SIZE
        invariant
            i <= FLASH_SECTOR_SIZE,
            v@ =~= erased(i as nat),
        decreases FLASH_SECTOR_SIZE - i,
    {
        v.push(ERASED_BYTE);
        i += 1;
    }
    v
}

impl FlashStore {
    pub open spec fn wf(&self) -> bool {
        store_wf(self@)
    }

    /// A store whose sectors are all erased.
    pub fn new() -> (r: FlashStore)
        ensures
            r.wf(),
            forall|i: int| 0 <= i < SLOT_COUNT ==> #[trigger] r@[i] == erased(FLASH_SECTOR_SIZE as nat),
    {
        let mut sectors: Vec<Vec<u8>> = Vec::new();
        let mut i: usize = 0;
        while i < SLOT_COUNT
            invariant
                i <= SLOT_COUNT,
                sectors@.len() == i,
                forall|j: int| 0 <= j < i ==> #[trigger] sectors@[j]@ == erased(FLASH_SECTOR_SIZE as nat),
            decreases SLOT_COUNT - i,
        {
            sectors.push(erased_sector());
            i += 1;
        }
        let r = FlashStore { sectors };
        assert(r.wf());
        r
    }

    /// A store over sector contents read from flash, if there is one
    /// sector of the right size per slot.
    pub fn from_sectors(sectors: Vec<Vec<u8>>) -> (r: Option<FlashStore>)
        ensures
            store_wf(sectors@.map_values(|v: Vec<u8>| v@)) <==> r is Some,
            r is Some ==> r->0@ == sectors@.map_values(|v: Vec<u8>| v@),
    {
        if sectors.len() != SLOT_COUNT {
            return None;
        }
        let mut i: usize = 0;
        while i < sectors.len()
            invariant
                i <= sectors@.len(),
                forall|j: int| 0 <= j < i ==> #[trigger] sectors@[j]@.len() == FLASH_SECTOR_SIZE,
            decreases sectors@.len() - i,
        {
            if sectors[i].len() != FLASH_SECTOR_SIZE {
                assert(sectors@.map_values(|v: Vec<u8>| v@)[i as int].len() != FLASH_SECTOR_SIZE);
                return None;
            }
            i += 1;
        }
        Some(FlashStore { sectors })
    }

    /// The current image of one slot's sector.
    pub fn sector(&self, slot: usize) -> (r: &Vec<u8>)
        requires
            slot < SLOT_COUNT,
            self.wf(),
        ensures
            r@ == self@[slot as int],
    {
        &self.sectors[slot]
    }

    /// Stores `data` in a slot: the sector is erased and programmed with the
    /// record image. Nothing changes when the slot or the size is rejected.
    pub fn write_to_flash(&mut self, slot: usize, data: &[u8]) -> (r: Result<(), Error>)
        requires
            old(self).wf(),
        ensures
            final(self).wf(),
            match write_result(old(self)@, slot as int, data@) {
                Ok(st) => r is Ok && final(self)@ == st,
                Err(e) => r == Err::<(), Error>(e) && final(self)@ == old(self)@,
            },
    {
        if slot >= SLOT_COUNT {
            return Err(Error::InvalidSlotNumber);
        }
        let record = match StoredData::new(data) {
            Ok(record) => record,
            Err(e) => return Err(e),
        };
        let image = record.to_sector();
        proof {
            lemma_record_round_trip(data@);
        }
        self.sectors.set(slot, image);
        assert(self@ =~= old(self)@.update(slot as int, record_image(data@)));
        Ok(())
    }

    /// The payload stored in a slot.
    pub fn read_from_flash(&self, slot: usize) -> (r: Result<Vec<u8>, Error>)
        requires
            self.wf(),
        ensures
            match read_result(self@, slot as int) {
                Ok(p) => r is Ok && r->Ok_0@ == p,
                Err(e) => r is Err && r->Err_0 == e,
            },
    {
        if slot >= SLOT_COUNT {
            return Err(Error::InvalidSlotNumber);
        }
        Ok(decode_record(self.sectors[slot].as_slice()))
    }
}

/// A payload written to a slot reads back unchanged, and the other slots
/// keep what they held.
pub proof fn lemma_write_then_read(st: Seq<Seq<u8>>, s: int, p: Seq<u8>)
    requires
        store_wf(st),
        0 <= s < SLOT_COUNT,
        p.len() <= SLOT_CAPACITY,
    ensures
        write_result(st, s, p) is Ok,
        store_wf(write_result(st, s, p)->Ok_0),
        read_result(write_result(st, s, p)->Ok_0, s) == Ok::<Seq<u8>, Error>(p),
        forall|t: int|
            t != s ==> #[trigger] read_result(write_result(st, s, p)->Ok_0, t) == read_result(
                st,
                t,
            ),
{
    lemma_record_round_trip(p);
    let after = st.update(s, record_image(p));
    assert forall|i: int| 0 <= i < after.len() implies #[trigger] after[i].len()
        == FLASH_SECTOR_SIZE by {
        if i != s {
            assert(after[i] == st[i]);
        }
    }
}

} // verus!
