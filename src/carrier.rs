//! The fixed catalog of carriers, keyed by a one-byte code.
use vstd::prelude::*;

verus! {

/// A carrier: the three primary carriers, the broadcasting carrier, and the
/// virtual operators on each of them.
#[derive(Debug, Clone, Copy, PartialEq, Eq, Structural)]
pub enum Isp {
    Cmcc,
    Cucc,
    Ctcc,
    CtccV,
    CuccV,
    CmccV,
    Cbcc,
    CbccV,
}

/// The display name of the carrier with code `code`; empty for a code
/// outside the catalog.
pub open spec fn carrier_name(code: u8) -> Seq<char> {
    if code == 1 {
        "中国移动"@
    } else if code == 2 {
        "中国联通"@
    } else if code == 3 {
        "中国电信"@
    } else if code == 4 {
        "中国电信虚拟运营商"@
    } else if code == 5 {
        "中国联通虚拟运营商"@
    } else if code == 6 {
        "中国移动虚拟运营商"@
    } else if code == 7 {
        "中国广电"@
    } else if code == 8 {
        "中国广电虚拟运营商"@
    } else {
        Seq::empty()
    }
}

impl Isp {
    /// The code under which the carrier is stored.
    pub open spec fn code(self) -> u8 {
        match self {
            Isp::Cmcc => 1,
            Isp::Cucc => 2,
            Isp::Ctcc => 3,
            Isp::CtccV => 4,
            Isp::CuccV => 5,
            Isp::CmccV => 6,
            Isp::Cbcc => 7,
            Isp::CbccV => 8,
        }
    }

    /// The carrier stored under code `i`, if any.
    pub fn from_u8(i: u8) -> (r: Option<Isp>)
        ensures
            r is Some <==> 1 <= i <= 8,
            r matches Some(isp) ==> isp.code() == i,
    {
        match i {
            1 => Some(Isp::Cmcc),
            2 => Some(Isp::Cucc),
            3 => Some(Isp::Ctcc),
            4 => Some(Isp::CtccV),
            5 => Some(Isp::CuccV),
            6 => Some(Isp::CmccV),
            7 => Some(Isp::Cbcc),
            8 => Some(Isp::CbccV),
            _ => None,
        }
    }

    /// The carrier's display name.
    pub fn get_name(&self) -> (r: String)
        ensures
            r@ == carrier_name(self.code()),
    {
        match self {
            Isp::Cmcc => "中国移动".to_owned(),
            Isp::Cucc => "中国联通".to_owned(),
            Isp::Ctcc => "中国电信".to_owned(),
            Isp::CtccV => "中国电信虚拟运营商".to_owned(),
            Isp::CuccV => "中国联通虚拟运营商".to_owned(),
            Isp::CmccV => "中国移动虚拟运营商".to_owned(),
            Isp::Cbcc => "中国广电".to_owned(),
            Isp::CbccV => "中国广电虚拟运营商".to_owned(),
        }
    }
}

/// The catalog names the eight codes `1..=8` with eight distinct non-empty
/// names, and every other code with the empty name.
pub proof fn lemma_carrier_catalog()
    ensures
        forall|c: u8| 1 <= c <= 8 ==> (#[trigger] carrier_name(c)).len() > 0,
        forall|a: u8, b: u8|
            1 <= a <= 8 && 1 <= b <= 8 && a != b ==> #[trigger] carrier_name(a)
                != #[trigger] carrier_name(b),
        forall|c: u8| (c == 0 || c >= 9) ==> (#[trigger] carrier_name(c)).len() == 0,
{
    reveal_strlit("中国移动");
    reveal_strlit("中国联通");
    reveal_strlit("中国电信");
    reveal_strlit("中国电信虚拟运营商");
    reveal_strlit("中国联通虚拟运营商");
    reveal_strlit("中国移动虚拟运营商");
    reveal_strlit("中国广电");
    reveal_strlit("中国广电虚拟运营商");
    assert forall|a: u8, b: u8|
        1 <= a <= 8 && 1 <= b <= 8 && a != b implies #[trigger] carrier_name(a)
            != #[trigger] carrier_name(b) by {
        let na = carrier_name(a);
        let nb = carrier_name(b);
        if na.len() == nb.len() {
            assert(na[2] != nb[2]);
        }
    }
}

} // verus!
