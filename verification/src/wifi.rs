//! Wireless interfaces as the kernel's nl80211 family describes them.
use vstd::prelude::*;

verus! {

/// The mode of a wireless interface.
#[derive(Clone, Copy, Debug, PartialEq, Eq, Structural)]
pub enum WLANType {
    Unspecified,
    Adhoc,
    Station,
    Ap,
    ApVlan,
    Wds,
    Monitor,
    MeshPoint,
    P2pClient,
    P2pGo,
    P2pDevice,
    Ocb,
    Nan,
    Other(u32),
}

/// One attribute of an nl80211 interface message, as far as it is read
/// here.
#[derive(Clone, Debug)]
pub enum WifiAttr {
    IfIndex(u32),
    IfName(String),
    IfType(WLANType),
    Other,
}

/// A wireless interface: its name, index and mode.
#[derive(Clone, Debug)]
pub struct LandScapeWifiInterface {
    pub name: String,
    pub index: u32,
    pub wifi_type: WLANType,
}

/// The last interface index among the attributes.
pub open spec fn last_index(s: Seq<WifiAttr>) -> Option<u32>
    decreases s.len(),
{
    if s.len() == 0 {
        None
    } else {
        match s.last() {
            WifiAttr::IfIndex(i) => Some(i),
            _ => last_index(s.drop_last()),
        }
    }
}

/// The last interface name among the attributes.
pub open spec fn last_name(s: Seq<WifiAttr>) -> Option<Seq<char>>
    decreases s.len(),
{
    if s.len() == 0 {
        None
    } else {
        match s.last() {
            WifiAttr::IfName(n) => Some(n@),
            _ => last_name(s.drop_last()),
        }
    }
}

/// The last interface mode among the attributes.
pub open spec fn last_type(s: Seq<WifiAttr>) -> Option<WLANType>
    decreases s.len(),
{
    if s.len() == 0 {
        None
    } else {
        match s.last() {
            WifiAttr::IfType(t) => Some(t),
            _ => last_type(s.drop_last()),
        }
    }
}

impl LandScapeWifiInterface {
    /// The interface that a message describes: its last index, name and
    /// mode; nothing where one of them is missing.
    pub fn new(attributes: Vec<WifiAttr>) -> (r: Option<LandScapeWifiInterface>)
        ensures
            match r {
                Some(w) => last_index(attributes@) == Some(w.index) && last_name(attributes@)
                    == Some(w.name@) && last_type(attributes@) == Some(w.wifi_type),
                None => last_index(attributes@) is None || last_name(attributes@) is None
                    || last_type(attributes@) is None,
            },
    {
        let mut name: Option<String> = None;
        let mut index: Option<u32> = None;
        let mut wifi_type: Option<WLANType> = None;
        let mut i: usize = 0;
        while i < attributes.len()
            invariant
                i <= attributes@.len(),
                index == last_index(attributes@.take(i as int)),
                match name {
                    Some(n) => last_name(attributes@.take(i as int)) == Some(n@),
                    None => last_name(attributes@.take(i as int)) is None,
                },
                wifi_type == last_type(attributes@.take(i as int)),
            decreases attributes@.len() - i,
        {
            assert(attributes@.take(i + 1).drop_last() =~= attributes@.take(i as int));
            match &attributes[i] {
                WifiAttr::IfIndex(v) => index = Some(*v),
                WifiAttr::IfName(n) => name = Some(n.clone()),
                WifiAttr::IfType(t) => wifi_type = Some(*t),
                WifiAttr::Other => {},
            }
            i += 1;
        }
        assert(attributes@.take(attributes@.len() as int) =~= attributes@);
        match (index, name, wifi_type) {
            (Some(index), Some(name), Some(wifi_type)) => Some(
                LandScapeWifiInterface { name, index, wifi_type },
            ),
            _ => None,
        }
    }
}

} // verus!
