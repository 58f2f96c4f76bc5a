//! Devices found on the local network: which announcements are taken,
//! how they are listed, and what this device announces.

use vstd::prelude::*;
use crate::models::{BackendEvent, NearbyDevice};
use crate::order::{
    lemma_text_le_first_difference, lemma_text_le_prefix, lemma_text_le_total,
    lemma_text_le_transitive, text_le, text_le_exec,
};
use crate::registry::KeyedRegistry;
use crate::models::DeviceIdentity;
use crate::text::{chars_of, decimal, push_decimal, push_text, string_of, text_eq};

verus! {

/// The Unicode lowercase mapping of `s` (what `str::to_lowercase` gives).
pub uninterp spec fn unicode_lowercase(s: Seq<char>) -> Seq<char>;

/// `str::to_lowercase`: the Unicode lowercase mapping of `s`.
#[verifier::external_body]
fn to_lowercase(s: &str) -> (r: String)
    ensures
        r@ == unicode_lowercase(s@),
{
    s.to_lowercase()
}

/// The key by which devices are listed: the lowercase form of the name.
pub open spec fn listing_key(d: NearbyDevice) -> Seq<char> {
    unicode_lowercase(d.name@)
}

/// Devices listed by name, ignoring case.
pub open spec fn sorted_by_name(s: Seq<NearbyDevice>) -> bool {
    forall|i: int, j: int|
        0 <= i < j < s.len() ==> text_le(listing_key(#[trigger] s[i]), listing_key(#[trigger] s[j]))
}

/// In a listing sorted by name, a device whose lowercase name has the
/// smaller character at the first position where the two names differ is
/// listed first ("macbook air" before "macbook pro").
pub proof fn lemma_listing_follows_first_difference(s: Seq<NearbyDevice>, i: int, j: int, k: int)
    requires
        sorted_by_name(s),
        0 <= i < s.len(),
        0 <= j < s.len(),
        0 <= k < listing_key(s[i]).len(),
        k < listing_key(s[j]).len(),
        listing_key(s[i]).take(k) == listing_key(s[j]).take(k),
        listing_key(s[i])[k] < listing_key(s[j])[k],
    ensures
        i < j,
{
    lemma_text_le_first_difference(listing_key(s[i]), listing_key(s[j]), k);
    if j < i {
        assert(text_le(listing_key(s[j]), listing_key(s[i])));
    }
}

/// In a listing sorted by name, a device whose lowercase name begins a
/// longer lowercase name is listed before the device with the longer one.
pub proof fn lemma_listing_puts_prefixes_first(s: Seq<NearbyDevice>, i: int, j: int)
    requires
        sorted_by_name(s),
        0 <= i < s.len(),
        0 <= j < s.len(),
        listing_key(s[i]).len() < listing_key(s[j]).len(),
        listing_key(s[j]).take(listing_key(s[i]).len() as int) == listing_key(s[i]),
    ensures
        i < j,
{
    lemma_text_le_prefix(listing_key(s[i]), listing_key(s[j]));
    if j < i {
        assert(text_le(listing_key(s[j]), listing_key(s[i])));
    }
}

/// A copy of a device record.
pub fn copy_device(d: &NearbyDevice) -> (r: NearbyDevice)
    ensures
        r == *d,
{
    NearbyDevice {
        id: d.id.clone(),
        name: d.name.clone(),
        platform: d.platform.clone(),
        address: d.address.clone(),
        port: d.port,
    }
}

/// The known devices, listed by name ignoring case.
pub fn nearby_devices(devices: &KeyedRegistry<NearbyDevice>) -> (r: Vec<NearbyDevice>)
    requires
        devices.wf(),
    ensures
        r@.to_multiset() == devices.values().to_multiset(),
        sorted_by_name(r@),
{
    let vals = devices.values_ref();
    let ghost all = devices.values();
    let mut out: Vec<NearbyDevice> = Vec::new();
    let mut keys: Vec<Vec<char>> = Vec::new();
    let mut i: usize = 0;
    assert(out@ =~= all.take(0));
    while i < vals.len()
        invariant
            i <= vals@.len(),
            vals@.len() == all.len(),
            forall|j: int| 0 <= j < vals@.len() ==> *vals@[j] == all[j],
            out@.to_multiset() == all.take(i as int).to_multiset(),
            keys@.len() == out@.len(),
            forall|j: int| 0 <= j < keys@.len() ==> (#[trigger] keys@[j])@ == listing_key(out@[j]),
            sorted_by_name(out@),
        decreases vals.len() - i,
    {
        let d = copy_device(vals[i]);
        let key = chars_of(to_lowercase(d.name.as_str()).as_str());
        let mut pos: usize = 0;
        while pos < keys.len() && text_le_exec(&keys[pos], &key)
            invariant
                pos <= keys@.len(),
                forall|j: int| 0 <= j < pos ==> text_le((#[trigger] keys@[j])@, key@),
            decreases keys.len() - pos,
        {
            pos = pos + 1;
        }
        let ghost old_out = out@;
        let ghost old_keys = keys@;
        proof {
            if pos < old_keys.len() {
                lemma_text_le_total(key@, old_keys[pos as int]@);
            }
            assert forall|j: int| pos <= j < old_keys.len() implies text_le(key@, (#[trigger] old_keys[j])@) by {
                if j > pos {
                    assert(text_le(listing_key(old_out[pos as int]), listing_key(old_out[j])));
                    lemma_text_le_transitive(key@, old_keys[pos as int]@, old_keys[j]@);
                }
            }
        }
        out.insert(pos, d);
        keys.insert(pos, key);
        proof {
            assert(all.take(i + 1) == all.take(i as int).push(all[i as int]));
            assert(d == all[i as int]);
            assert(out@ == old_out.insert(pos as int, d));
            vstd::seq_lib::to_multiset_insert(old_out, pos as int, d);
            vstd::seq_lib::to_multiset_build(all.take(i as int), d);
            assert(all.take(i + 1).to_multiset() == all.take(i as int).to_multiset().insert(d));
            assert forall|a: int, b: int| 0 <= a < b < out@.len() implies text_le(
                listing_key(#[trigger] out@[a]),
                listing_key(#[trigger] out@[b]),
            ) by {
                assert(keys@[a]@ == listing_key(out@[a]));
                assert(keys@[b]@ == listing_key(out@[b]));
                if a < pos && b < pos {
                    assert(text_le(listing_key(old_out[a]), listing_key(old_out[b])));
                } else if a < pos && b == pos {
                } else if a < pos {
                    assert(text_le(old_keys[a]@, key@));
                    assert(text_le(key@, old_keys[b - 1]@));
                    lemma_text_le_transitive(old_keys[a]@, key@, old_keys[b - 1]@);
                } else if a == pos {
                    assert(text_le(key@, old_keys[b - 1]@));
                } else {
                    assert(text_le(listing_key(old_out[a - 1]), listing_key(old_out[b - 1])));
                }
            }
        }
        i = i + 1;
    }
    assert(all.take(all.len() as int) == all);
    out
}

/// The mDNS service type under which devices announce themselves.
pub const SERVICE_TYPE: &'static str = "_filedrop._tcp.local.";

/// An address a device was resolved at, as far as the listing cares.
#[derive(Clone, Copy, Debug, PartialEq, Eq)]
pub enum HostAddress {
    /// An IPv4 address, by its four octets.
    V4(u8, u8, u8, u8),
    /// An IPv6 address.
    V6,
}

/// What a resolved announcement says: its text properties, addresses and
/// port.
#[derive(Clone, Debug, PartialEq, Eq)]
pub struct ResolvedDevice {
    pub id: Option<String>,
    pub name: Option<String>,
    pub platform: Option<String>,
    pub protocol: Option<String>,
    pub addresses: Vec<HostAddress>,
    pub port: u16,
}

/// An address other devices can connect to: IPv4 and not loopback.
pub open spec fn is_usable_address(a: HostAddress) -> bool {
    a matches HostAddress::V4(x, _, _, _) && x != 127
}

/// The first usable address of a list.
pub open spec fn first_usable(s: Seq<HostAddress>) -> Option<HostAddress>
    decreases s.len(),
{
    if s.len() == 0 {
        None
    } else if is_usable_address(s[0]) {
        Some(s[0])
    } else {
        first_usable(s.drop_first())
    }
}

/// The first usable address of a list is usable.
proof fn lemma_first_usable_is_usable(s: Seq<HostAddress>)
    ensures
        first_usable(s) matches Some(a) ==> is_usable_address(a),
    decreases s.len(),
{
    if s.len() > 0 {
        lemma_first_usable_is_usable(s.drop_first());
    }
}

/// Dotted decimal notation of an IPv4 address.
pub open spec fn ipv4_text(a: u8, b: u8, c: u8, d: u8) -> Seq<char> {
    decimal(a as nat) + seq!['.'] + decimal(b as nat) + seq!['.'] + decimal(c as nat) + seq!['.']
        + decimal(d as nat)
}

/// The text form of an address.
pub open spec fn address_text(a: HostAddress) -> Seq<char> {
    match a {
        HostAddress::V4(w, x, y, z) => ipv4_text(w, x, y, z),
        HostAddress::V6 => Seq::empty(),
    }
}

/// Whether an announcement names another device of this protocol that can
/// be reached: it has an id other than `own_id`, protocol `1`, a name, and
/// a usable address.
pub open spec fn is_listable(own_id: Seq<char>, s: ResolvedDevice) -> bool {
    &&& s.id matches Some(id) && id@ != own_id
    &&& s.protocol matches Some(p) && p@ == seq!['1']
    &&& s.name is Some
    &&& first_usable(s.addresses@) is Some
}

/// The listing of a listable announcement: its id, name, platform (`other`
/// when none is given), first usable address and port.
pub open spec fn lists_as(d: NearbyDevice, s: ResolvedDevice) -> bool {
    &&& d.id@ == s.id->0@
    &&& d.name@ == s.name->0@
    &&& d.platform@ == (match s.platform {
        Some(p) => p@,
        None => "other"@,
    })
    &&& d.address@ == address_text(first_usable(s.addresses@)->0)
    &&& d.port == s.port
}

/// The first usable address in `addrs`.
fn find_usable(addrs: &Vec<HostAddress>) -> (r: Option<HostAddress>)
    ensures
        r == first_usable(addrs@),
{
    let mut i: usize = 0;
    assert(addrs@.skip(0) == addrs@);
    while i < addrs.len()
        invariant
            i <= addrs@.len(),
            first_usable(addrs@) == first_usable(addrs@.skip(i as int)),
        decreases addrs.len() - i,
    {
        assert(addrs@.skip(i as int)[0] == addrs@[i as int]);
        match addrs[i] {
            HostAddress::V4(x, y, z, w) => {
                if x != 127 {
                    return Some(HostAddress::V4(x, y, z, w));
                }
            },
            HostAddress::V6 => {},
        }
        assert(addrs@.skip(i as int).drop_first() == addrs@.skip(i + 1));
        i = i + 1;
    }
    None
}

/// Dotted decimal notation of an IPv4 address.
pub fn ipv4_address_text(a: u8, b: u8, c: u8, d: u8) -> (r: String)
    ensures
        r@ == ipv4_text(a, b, c, d),
{
    let mut m: Vec<char> = Vec::new();
    push_decimal(&mut m, a as u64);
    m.push('.');
    push_decimal(&mut m, b as u64);
    m.push('.');
    push_decimal(&mut m, c as u64);
    m.push('.');
    push_decimal(&mut m, d as u64);
    string_of(&m)
}

/// The listing of an announcement, when it names another reachable device
/// of this protocol.
pub fn device_from_service(own_id: &str, service: &ResolvedDevice) -> (r: Option<NearbyDevice>)
    ensures
        r is Some <==> is_listable(own_id@, *service),
        r matches Some(d) ==> lists_as(d, *service),
{
    let id = match &service.id {
        Some(id) => id,
        None => return None,
    };
    if text_eq(id.as_str(), own_id) {
        return None;
    }
    match &service.protocol {
        Some(p) => {
            proof {
                reveal_strlit("1");
                assert("1"@ =~= seq!['1']);
            }
            if !text_eq(p.as_str(), "1") {
                return None;
            }
        },
        None => return None,
    }
    let name = match &service.name {
        Some(n) => n,
        None => return None,
    };
    proof { lemma_first_usable_is_usable(service.addresses@); }
    let address = match find_usable(&service.addresses) {
        Some(HostAddress::V4(a, b, c, d)) => ipv4_address_text(a, b, c, d),
        _ => return None,
    };
    let platform = match &service.platform {
        Some(p) => p.clone(),
        None => "other".to_owned(),
    };
    Some(NearbyDevice { id: id.clone(), name: name.clone(), platform, address, port: service.port })
}

/// Takes in a resolved announcement: a listable one is recorded under its
/// id (replacing an earlier record), and the new listing is to be reported;
/// any other changes nothing.
pub fn device_resolved(
    devices: &mut KeyedRegistry<NearbyDevice>,
    own_id: &str,
    service: &ResolvedDevice,
) -> (r: Option<BackendEvent>)
    requires
        old(devices).wf(),
    ensures
        final(devices).wf(),
        !is_listable(own_id@, *service) ==> r is None && final(devices).map() == old(devices).map(),
        is_listable(own_id@, *service) ==> exists|d: NearbyDevice|
            {
                &&& lists_as(d, *service)
                &&& final(devices).map() == old(devices).map().insert(service.id->0@, d)
            },
        is_listable(own_id@, *service) ==> (r matches Some(BackendEvent::DevicesChanged(list))
            && list@.to_multiset() == final(devices).values().to_multiset() && sorted_by_name(
            list@)),
{
    match device_from_service(own_id, service) {
        Some(d) => {
            devices.insert(d.id.clone(), d);
            Some(BackendEvent::DevicesChanged(nearby_devices(devices)))
        },
        None => None,
    }
}

/// `s` without its trailing dots (`trim_end_matches('.')`).
pub open spec fn trim_end_dots(s: Seq<char>) -> Seq<char>
    decreases s.len(),
{
    if s.len() > 0 && s.last() == '.' {
        trim_end_dots(s.drop_last())
    } else {
        s
    }
}

/// The device id in an announcement's full name: the name without the
/// service type suffix (when it ends with it) and without trailing dots.
pub open spec fn device_id_of(fullname: Seq<char>) -> Seq<char> {
    let t = SERVICE_TYPE@;
    let stem = if fullname.len() >= t.len() && fullname.skip(fullname.len() - t.len()) == t {
        fullname.take(fullname.len() - t.len())
    } else {
        fullname
    };
    trim_end_dots(stem)
}

/// The id recovered from the full name of a device's own announcement,
/// its id, `.` and the service type, is its id, whatever its length, when
/// the id does not end in a dot.
pub proof fn lemma_device_id_of_own_announcement(id: Seq<char>)
    requires
        id.len() == 0 || id.last() != '.',
    ensures
        device_id_of(id + "."@ + SERVICE_TYPE@) == id,
{
    reveal_strlit(".");
    let t = SERVICE_TYPE@;
    let f = id + "."@ + t;
    assert(f.skip(f.len() - t.len()) =~= t);
    assert(f.take(f.len() - t.len()) =~= id + "."@);
    let p = id + "."@;
    assert(p.drop_last() =~= id);
    assert(p.last() == '.');
    assert(trim_end_dots(p) == trim_end_dots(id));
    assert(trim_end_dots(id) == id);
    assert(device_id_of(f) == trim_end_dots(p));
}

/// The device id in an announcement's full name.
pub fn device_id_from_fullname(fullname: &str) -> (r: String)
    ensures
        r@ == device_id_of(fullname@),
{
    let f = chars_of(fullname);
    let t = chars_of(SERVICE_TYPE);
    let mut keep = f.len();
    if f.len() >= t.len() {
        let off = f.len() - t.len();
        let mut i: usize = 0;
        let mut same = true;
        while i < t.len()
            invariant
                off + t.len() == f.len(),
                f@.len() == f.len(),
                i <= t@.len(),
                same == (forall|j: int| 0 <= j < i ==> f@[off + j] == t@[j]),
            decreases t.len() - i,
        {
            if f[off + i] != t[i] {
                same = false;
            }
            i = i + 1;
        }
        if same {
            assert(f@.skip(off as int) =~= t@);
            keep = off;
        } else {
            assert(f@.skip(off as int) != t@) by {
                let j = choose|j: int| 0 <= j < t@.len() && f@[off + j] != t@[j];
                assert(f@.skip(off as int)[j] == f@[off + j]);
            }
        }
    }
    let mut out: Vec<char> = Vec::new();
    let mut k: usize = 0;
    while k < keep
        invariant
            keep <= f@.len(),
            k <= keep,
            out@ == f@.take(k as int),
        decreases keep - k,
    {
        out.push(f[k]);
        k = k + 1;
    }
    assert(keep == f@.len() ==> f@.take(keep as int) == f@);
    while out.len() > 0 && out[out.len() - 1] == '.'
        invariant
            trim_end_dots(out@) == trim_end_dots(f@.take(keep as int)),
        decreases out.len(),
    {
        out.pop();
    }
    string_of(&out)
}

/// Takes in a withdrawn announcement: the device it names is forgotten,
/// and when one was known the new listing is to be reported.
pub fn device_removed(devices: &mut KeyedRegistry<NearbyDevice>, fullname: &str) -> (r: Option<
    BackendEvent,
>)
    requires
        old(devices).wf(),
    ensures
        final(devices).wf(),
        final(devices).map() == old(devices).map().remove(device_id_of(fullname@)),
        !old(devices).map().dom().contains(device_id_of(fullname@)) ==> r is None,
        old(devices).map().dom().contains(device_id_of(fullname@)) ==> (r matches Some(
            BackendEvent::DevicesChanged(list),
        ) && list@.to_multiset() == final(devices).values().to_multiset() && sorted_by_name(
            list@,
        )),
{
    let id = device_id_from_fullname(fullname);
    match devices.remove(id.as_str()) {
        Some(_) => Some(BackendEvent::DevicesChanged(nearby_devices(devices))),
        None => None,
    }
}

/// A TXT property key as this library writes them: lowercase ASCII letters.
pub open spec fn is_plain_key(k: Seq<char>) -> bool {
    k.len() > 0 && forall|i: int| 0 <= i < k.len() ==> 'a' <= #[trigger] k[i] && k[i] <= 'z'
}

/// The bytes a TXT property takes: its key, `=` and its value, in UTF-8.
pub open spec fn txt_property_len(key: Seq<char>, value: Seq<char>) -> nat {
    vstd::utf8::encode_utf8(key).len() + 1 + vstd::utf8::encode_utf8(value).len()
}

/// A TXT property that fits in one TXT string: at most 255 bytes.
pub open spec fn txt_property_fits(key: Seq<char>, value: Seq<char>) -> bool {
    txt_property_len(key, value) <= 255
}

/// The network crate's message for a TXT property that does not fit.
pub open spec fn overlong_property_message(key: Seq<char>, value: Seq<char>) -> Seq<char> {
    "TXT property '"@ + key + "' has length "@ + decimal(txt_property_len(key, value))
        + " bytes, exceeding the 255-byte limit"@
}

/// Property `i` is the first of `ps` that does not fit.
pub open spec fn first_overlong(ps: Seq<(Seq<char>, Seq<char>)>, i: int) -> bool {
    &&& 0 <= i < ps.len()
    &&& !txt_property_fits(ps[i].0, ps[i].1)
    &&& forall|j: int| 0 <= j < i ==> txt_property_fits((#[trigger] ps[j]).0, ps[j].1)
}

/// The host name announced for a device: `filedrop-`, the first twelve
/// characters of its id, and `.local.`.
pub open spec fn host_name_of(id: Seq<char>) -> Seq<char> {
    "filedrop-"@ + (if id.len() <= 12 { id } else { id.take(12) }) + ".local."@
}

/// The host name announced for a device with id `id`.
pub fn service_host_name(id: &str) -> (r: String)
    ensures
        r@ == host_name_of(id@),
{
    let cs = chars_of(id);
    let mut m: Vec<char> = Vec::new();
    push_text(&mut m, "filedrop-");
    let ghost start = m@;
    let mut i: usize = 0;
    while i < cs.len() && i < 12
        invariant
            i <= cs@.len(),
            i <= 12,
            m@ == start + cs@.take(i as int),
        decreases cs.len() - i,
    {
        m.push(cs[i]);
        i = i + 1;
        assert(m@ == start + cs@.take(i as int));
    }
    assert(cs@.len() <= 12 ==> cs@.take(cs@.len() as int) == cs@);
    push_text(&mut m, ".local.");
    string_of(&m)
}

/// The message prefix for a refused announcement.
pub open spec fn announcement_error_prefix() -> Seq<char> {
    "Could not create the discovery announcement: "@
}

/// The TXT properties announced for a device: its id, name and platform,
/// and protocol `1`.
pub open spec fn announced_properties(identity: DeviceIdentity) -> Seq<(Seq<char>, Seq<char>)> {
    seq![
        ("id"@, identity.id@),
        ("name"@, identity.name@),
        ("platform"@, identity.platform@),
        ("protocol"@, "1"@),
    ]
}

/// TXT properties taken as text.
pub open spec fn property_views(ps: Seq<(String, String)>) -> Seq<(Seq<char>, Seq<char>)> {
    ps.map_values(|p: (String, String)| (p.0@, p.1@))
}

/// Keys that are lowercase ASCII words, no two alike.
pub open spec fn plain_distinct_keys(ps: Seq<(Seq<char>, Seq<char>)>) -> bool {
    &&& forall|i: int| 0 <= i < ps.len() ==> is_plain_key((#[trigger] ps[i]).0)
    &&& forall|i: int, j: int| 0 <= i < j < ps.len() ==> (#[trigger] ps[i]).0 != (#[trigger] ps[j]).0
}

/// Whether every property fits in a TXT string.
pub open spec fn properties_fit(ps: Seq<(Seq<char>, Seq<char>)>) -> bool {
    forall|i: int| 0 <= i < ps.len() ==> txt_property_fits((#[trigger] ps[i]).0, ps[i].1)
}

/// Whether every property this device announces fits in a TXT string.
pub open spec fn announcement_fits(identity: DeviceIdentity) -> bool {
    properties_fit(announced_properties(identity))
}

/// What a device puts on the network: the service type, its instance name,
/// its host name, the port it listens on and its TXT properties.
pub struct Announcement {
    pub service_type: String,
    pub instance: String,
    pub host: String,
    pub port: u16,
    pub properties: Vec<(String, String)>,
}

/// `a` is what the device `identity` announces for a receiver on `port`:
/// instance name its id, host name from its id, and its properties.
pub open spec fn announces(a: Announcement, identity: DeviceIdentity, port: u16) -> bool {
    &&& a.service_type@ == SERVICE_TYPE@
    &&& a.instance@ == identity.id@
    &&& a.host@ == host_name_of(identity.id@)
    &&& a.port == port
    &&& property_views(a.properties@) == announced_properties(identity)
}

/// An announcement ready to register, with the parts it was made from and
/// whether it follows the host's addresses.
pub struct AnnouncedService {
    parts: Announcement,
    follows_host_addresses: bool,
    info: mdns_sd::ServiceInfo,
}

/// `mdns_sd::ServiceInfo`, the announcement as the network crate holds it;
/// its contents are not visible to proofs.
#[verifier::external_type_specification]
#[verifier::external_body]
pub struct ExServiceInfo(mdns_sd::ServiceInfo);

impl AnnouncedService {
    /// The parts the announcement was made from.
    pub closed spec fn parts(&self) -> Announcement {
        self.parts
    }

    /// Whether the announcement follows the host's addresses as they change.
    pub closed spec fn tracks_host_addresses(&self) -> bool {
        self.follows_host_addresses
    }

    /// The parts the announcement was made from.
    pub fn announcement(&self) -> (r: &Announcement)
        ensures
            *r == self.parts(),
    {
        &self.parts
    }

    /// Whether the announcement follows the host's addresses as they change.
    pub fn follows_host_addresses(&self) -> (r: bool)
        ensures
            r == self.tracks_host_addresses(),
    {
        self.follows_host_addresses
    }

    /// The announcement, to hand to the network daemon.
    pub fn into_service_info(self) -> mdns_sd::ServiceInfo {
        self.info
    }
}

/// `mdns_sd::ServiceInfo::new(service_type, instance, host, "", port,
/// properties)` on the parts of `a`: an announcement with no fixed address,
/// kept together with `a`. The crate escapes the instance name and
/// normalizes the host name as it stores them; that is not stated. With
/// distinct lowercase ASCII keys, the source refuses the parts exactly when
/// a property does not fit in a TXT string (the empty address list and the
/// names are accepted as they are); its error is given as its text.
#[verifier::external_body]
fn new_service_info(a: Announcement) -> (r: Result<AnnouncedService, String>)
    requires
        plain_distinct_keys(property_views(a.properties@)),
    ensures
        r is Ok <==> properties_fit(property_views(a.properties@)),
        r matches Err(m) ==> exists|i: int| #[trigger] first_overlong(property_views(a.properties@), i)
            && m@ == overlong_property_message(
            property_views(a.properties@)[i].0,
            property_views(a.properties@)[i].1,
        ),
        r matches Ok(s) ==> s.parts() == a && !s.tracks_host_addresses(),
{
    let props: Vec<(&str, &str)> = a.properties.iter().map(|p| (p.0.as_str(), p.1.as_str())).collect();
    match mdns_sd::ServiceInfo::new(&a.service_type, &a.instance, &a.host, "", a.port, &props[..]) {
        Ok(info) => Ok(AnnouncedService { parts: a, follows_host_addresses: false, info }),
        Err(e) => Err(e.to_string()),
    }
}

/// `mdns_sd::ServiceInfo::enable_addr_auto`: the same announcement, set to
/// follow the host's addresses as they change.
#[verifier::external_body]
fn enable_addr_auto(s: AnnouncedService) -> (r: AnnouncedService)
    ensures
        r.parts() == s.parts(),
        r.tracks_host_addresses(),
{
    AnnouncedService { parts: s.parts, follows_host_addresses: true, info: s.info.enable_addr_auto() }
}

/// What the device `identity` announces for the receiver listening on
/// `port`.
pub fn announcement_parts(identity: &DeviceIdentity, port: u16) -> (a: Announcement)
    ensures
        announces(a, *identity, port),
{
    let mut properties: Vec<(String, String)> = Vec::new();
    properties.push(("id".to_owned(), identity.id.clone()));
    properties.push(("name".to_owned(), identity.name.clone()));
    properties.push(("platform".to_owned(), identity.platform.clone()));
    properties.push(("protocol".to_owned(), "1".to_owned()));
    proof {
        reveal_strlit("id");
        reveal_strlit("name");
        reveal_strlit("platform");
        reveal_strlit("protocol");
        reveal_strlit("1");
        assert(property_views(properties@) =~= announced_properties(*identity));
    }
    Announcement {
        service_type: SERVICE_TYPE.to_owned(),
        instance: identity.id.clone(),
        host: service_host_name(identity.id.as_str()),
        port,
        properties,
    }
}

/// The keys this device announces are distinct lowercase ASCII words.
proof fn lemma_announced_keys_are_plain(identity: DeviceIdentity)
    ensures
        plain_distinct_keys(announced_properties(identity)),
{
    reveal_strlit("id");
    reveal_strlit("name");
    reveal_strlit("platform");
    reveal_strlit("protocol");
    let ps = announced_properties(identity);
    assert forall|i: int, j: int| 0 <= i < j < ps.len() implies (#[trigger] ps[i]).0 != (
    #[trigger] ps[j]).0 by {
        assert(ps[i].0.len() != ps[j].0.len() || ps[i].0[1] != ps[j].0[1]);
    }
}

/// The message of a refused announcement: the prefix, then the network
/// crate's message for the first property that does not fit (the protocol
/// property always fits).
pub open spec fn announcement_refusal(identity: DeviceIdentity) -> Seq<char> {
    let ps = announced_properties(identity);
    let k = if !txt_property_fits(ps[0].0, ps[0].1) {
        0
    } else if !txt_property_fits(ps[1].0, ps[1].1) {
        1
    } else {
        2int
    };
    announcement_error_prefix() + overlong_property_message(ps[k].0, ps[k].1)
}

/// The message of a refused announcement, from the network crate's message.
pub fn announcement_error(reason: &str) -> (m: String)
    ensures
        m@ == announcement_error_prefix() + reason@,
{
    let mut m: Vec<char> = Vec::new();
    push_text(&mut m, "Could not create the discovery announcement: ");
    push_text(&mut m, reason);
    string_of(&m)
}

/// Builds this device's announcement for the receiver listening on `port`
/// and sets it to follow the host's addresses. It is refused exactly when a
/// property is too long for a TXT string.
pub fn service_announcement(identity: &DeviceIdentity, port: u16) -> (r: Result<
    AnnouncedService,
    String,
>)
    ensures
        r is Ok <==> announcement_fits(*identity),
        r matches Ok(s) ==> announces(s.parts(), *identity, port) && s.tracks_host_addresses(),
        r matches Err(m) ==> m@ == announcement_refusal(*identity),
{
    let parts = announcement_parts(identity, port);
    proof {
        lemma_announced_keys_are_plain(*identity);
    }
    match new_service_info(parts) {
        Ok(s) => Ok(enable_addr_auto(s)),
        Err(e) => {
            proof {
                let ps = announced_properties(*identity);
                let i = choose|i: int| #[trigger] first_overlong(ps, i);
                reveal_strlit("protocol");
                reveal_strlit("1");
                assert(vstd::utf8::is_ascii_chars("protocol"@));
                vstd::utf8::is_ascii_chars_encode_utf8("protocol"@);
                assert(vstd::utf8::is_ascii_chars("1"@));
                vstd::utf8::is_ascii_chars_encode_utf8("1"@);
                assert(txt_property_fits(ps[3].0, ps[3].1));
                assert(i < 3);
                if i == 1 {
                    assert(txt_property_fits(ps[0].0, ps[0].1));
                }
                if i == 2 {
                    assert(txt_property_fits(ps[0].0, ps[0].1));
                    assert(txt_property_fits(ps[1].0, ps[1].1));
                }
            }
            Err(announcement_error(e.as_str()))
        },
    }
}

} // verus!
