//! The rules of the compiler's component interface that are plain
//! arithmetic: interface ids and who answers to them, reference counts,
//! and result codes.

use vstd::prelude::*;

verus! {

/// The id of an interface.
#[derive(Clone, Copy, Debug)]
pub struct Uuid {
    pub data1: u32,
    pub data2: u16,
    pub data3: u16,
    pub data4: [u8; 8],
}

/// The id with the given parts.
pub fn uuid(data1: u32, data2: u16, data3: u16, data4: [u8; 8]) -> (id: Uuid)
    ensures
        id == (Uuid { data1, data2, data3, data4 }),
{
    Uuid { data1, data2, data3, data4 }
}

/// Whether two ids are the same, part by part.
pub open spec fn same_id(a: Uuid, b: Uuid) -> bool {
    &&& a.data1 == b.data1
    &&& a.data2 == b.data2
    &&& a.data3 == b.data3
    &&& a.data4@ == b.data4@
}

impl Uuid {
    /// Whether this id is the same as the other.
    pub fn matches(&self, other: &Uuid) -> (b: bool)
        ensures
            b == same_id(*self, *other),
    {
        if self.data1 != other.data1 || self.data2 != other.data2 || self.data3 != other.data3 {
            return false;
        }
        let mut i: usize = 0;
        while i < 8
            invariant
                i <= 8,
                forall|k: int| 0 <= k < i ==> self.data4@[k] == other.data4@[k],
            decreases 8 - i,
        {
            if self.data4[i] != other.data4[i] {
                return false;
            }
            i = i + 1;
        }
        assert(self.data4@ =~= other.data4@);
        true
    }
}

/// The interfaces that an object handed to the compiler can offer.
#[derive(Clone, Copy, Debug, PartialEq, Eq, Structural)]
pub enum InterfaceKind {
    /// The root of all interfaces.
    Unknown,
    /// An object that can be asked for its other interfaces.
    Castable,
    /// A block of bytes.
    Blob,
    /// A file system; it is castable too.
    FileSystem,
}

/// The id of an interface, as contracts see it.
pub open spec fn interface_id(kind: InterfaceKind) -> Uuid {
    match kind {
        InterfaceKind::Unknown => Uuid {
            data1: 0x00000000,
            data2: 0x0000,
            data3: 0x0000,
            data4: [0xC0u8, 0x00u8, 0x00u8, 0x00u8, 0x00u8, 0x00u8, 0x00u8, 0x46u8],
        },
        InterfaceKind::Castable => Uuid {
            data1: 0x87ede0e1,
            data2: 0x4852,
            data3: 0x44b0,
            data4: [0x8bu8, 0xf2u8, 0xcbu8, 0x31u8, 0x87u8, 0x4du8, 0xe2u8, 0x39u8],
        },
        InterfaceKind::Blob => Uuid {
            data1: 0x8BA5FB08,
            data2: 0x5195,
            data3: 0x40e2,
            data4: [0xACu8, 0x58u8, 0x0Du8, 0x98u8, 0x9Cu8, 0x3Au8, 0x01u8, 0x02u8],
        },
        InterfaceKind::FileSystem => Uuid {
            data1: 0x003A09FC,
            data2: 0x3A4D,
            data3: 0x4BA0,
            data4: [0xADu8, 0x60u8, 0x1Fu8, 0xD8u8, 0x63u8, 0xA9u8, 0x15u8, 0xABu8],
        },
    }
}

/// Whether an object that offers `kind` answers to the interface `asked`:
/// every object is an `Unknown`, and a file system is castable.
pub open spec fn offers(kind: InterfaceKind, asked: InterfaceKind) -> bool {
    asked == InterfaceKind::Unknown || asked == kind || (kind == InterfaceKind::FileSystem
        && asked == InterfaceKind::Castable)
}

/// Whether an object that offers `kind` answers to the interface with the
/// given id.
pub open spec fn answers_to(kind: InterfaceKind, id: Uuid) -> bool {
    exists|asked: InterfaceKind| offers(kind, asked) && same_id(id, #[trigger] interface_id(asked))
}

impl InterfaceKind {
    /// The id of the interface.
    pub fn id(self) -> (id: Uuid)
        ensures
            id == interface_id(self),
    {
        match self {
            InterfaceKind::Unknown => uuid(
                0x00000000,
                0x0000,
                0x0000,
                [0xC0u8, 0x00u8, 0x00u8, 0x00u8, 0x00u8, 0x00u8, 0x00u8, 0x46u8],
            ),
            InterfaceKind::Castable => uuid(
                0x87ede0e1,
                0x4852,
                0x44b0,
                [0x8bu8, 0xf2u8, 0xcbu8, 0x31u8, 0x87u8, 0x4du8, 0xe2u8, 0x39u8],
            ),
            InterfaceKind::Blob => uuid(
                0x8BA5FB08,
                0x5195,
                0x40e2,
                [0xACu8, 0x58u8, 0x0Du8, 0x98u8, 0x9Cu8, 0x3Au8, 0x01u8, 0x02u8],
            ),
            InterfaceKind::FileSystem => uuid(
                0x003A09FC,
                0x3A4D,
                0x4BA0,
                [0xADu8, 0x60u8, 0x1Fu8, 0xD8u8, 0x63u8, 0xA9u8, 0x15u8, 0xABu8],
            ),
        }
    }

    /// Whether the id is that of this interface.
    pub fn matches(self, id: &Uuid) -> (b: bool)
        ensures
            b == same_id(*id, interface_id(self)),
    {
        let own = self.id();
        id.matches(&own)
    }

    /// Whether an object that offers this interface answers to the
    /// interface with the given id.
    pub fn is_interface_compatible(self, id: &Uuid) -> (b: bool)
        ensures
            b == answers_to(self, *id),
    {
        let b = InterfaceKind::Unknown.matches(id) || self.matches(id) || (match self {
            InterfaceKind::FileSystem => InterfaceKind::Castable.matches(id),
            _ => false,
        });
        proof {
            if b {
                let asked = if same_id(*id, interface_id(InterfaceKind::Unknown)) {
                    InterfaceKind::Unknown
                } else if same_id(*id, interface_id(self)) {
                    self
                } else {
                    InterfaceKind::Castable
                };
                assert(offers(self, asked) && same_id(*id, interface_id(asked)));
            }
        }
        b
    }
}

/// The count of the references that the compiler holds to an object.
#[derive(Clone, Copy, Debug)]
pub struct RefCount {
    count: u32,
}

impl RefCount {
    /// The number of references held.
    pub closed spec fn held(&self) -> nat {
        self.count as nat
    }

    /// The count of an object that nobody refers to yet.
    pub fn new() -> (c: Self)
        ensures
            c.held() == 0,
    {
        RefCount { count: 0 }
    }

    /// The number of references held.
    pub fn get(&self) -> (n: u32)
        ensures
            n == self.held(),
    {
        self.count
    }

    /// Counts one more reference, and tells the new count. At the limit of
    /// the counter nothing changes and `None` is the answer.
    pub fn add_ref(&mut self) -> (n: Option<u32>)
        ensures
            old(self).held() < u32::MAX ==> final(self).held() == old(self).held() + 1 && n == Some(
                final(self).held() as u32,
            ),
            old(self).held() >= u32::MAX ==> final(self).held() == old(self).held() && n is None,
    {
        if self.count < u32::MAX {
            self.count = self.count + 1;
            Some(self.count)
        } else {
            None
        }
    }

    /// Counts one reference less, and tells the new count: at 0 the object
    /// is to be dropped. Where no reference is held nothing changes and
    /// `None` is the answer.
    pub fn release(&mut self) -> (n: Option<u32>)
        ensures
            old(self).held() > 0 ==> final(self).held() == old(self).held() - 1 && n == Some(
                final(self).held() as u32,
            ),
            old(self).held() == 0 ==> final(self).held() == 0 && n is None,
    {
        if self.count > 0 {
            self.count = self.count - 1;
            Some(self.count)
        } else {
            None
        }
    }
}

/// The result code that reports a failure without a code of its own.
pub const FAILED: i32 = -1;

/// Whether a result code reports success: it is not negative.
pub fn succeeded(code: i32) -> (b: bool)
    ensures
        b == (code >= 0),
{
    code >= 0
}

/// What went wrong in a call, as far as a result code can tell it.
#[derive(Clone, Copy, Debug, PartialEq, Eq, Structural)]
pub enum Failure {
    /// The call handed back a null pointer.
    InvalidPtr,
    /// Reading or writing failed.
    Io,
    /// The call failed with the given code.
    Code(i32),
    /// The call failed and said why in a diagnostics blob.
    Diagnostics,
    /// Nothing more is known.
    Unknown,
}

/// The result code of a failure, as contracts see it: its own code where
/// it has one, -1 otherwise.
pub open spec fn code_of(failure: Failure) -> i32 {
    match failure {
        Failure::Code(code) => code,
        _ => -1i32,
    }
}

/// What a call with the given result code reports: nothing where it
/// succeeded; the diagnostics where it failed and left some; its code
/// otherwise.
pub open spec fn outcome_of(code: i32, has_diagnostics: bool) -> Option<Failure> {
    if code >= 0 {
        None
    } else if has_diagnostics {
        Some(Failure::Diagnostics)
    } else {
        Some(Failure::Code(code))
    }
}

impl Failure {
    /// The result code that reports this failure.
    pub fn code(self) -> (code: i32)
        ensures
            code == code_of(self),
    {
        match self {
            Failure::Code(code) => code,
            _ => FAILED,
        }
    }

    /// What a call with the given result code reports.
    pub fn of_call(code: i32, has_diagnostics: bool) -> (r: Option<Failure>)
        ensures
            r == outcome_of(code, has_diagnostics),
    {
        if succeeded(code) {
            None
        } else if has_diagnostics {
            Some(Failure::Diagnostics)
        } else {
            Some(Failure::Code(code))
        }
    }
}

/// What answers a query for an interface: success and one more reference
/// where the object offers the interface, failure where it does not or where
/// the count is at its limit.
pub fn query_interface(offered: bool, count: &mut RefCount) -> (code: i32)
    ensures
        code == 0 || code == -1,
        code == 0 <==> offered && old(count).held() < u32::MAX,
        code == 0 ==> final(count).held() == old(count).held() + 1,
        code != 0 ==> final(count).held() == old(count).held(),
{
    if offered {
        match count.add_ref() {
            Some(_) => 0,
            None => FAILED,
        }
    } else {
        FAILED
    }
}

} // verus!
