//! Devices on USB: which of them are ours, and how they are spoken to.

use crate::host::connect_map;
use crate::host::connect_map::{ConnectMap, DeviceView};
use crate::host::dispatch::contains_word;
use crate::host::session;
use crate::host::session::device_found;
use crate::protocol::config::{ConnStatus, ConnectType, ConnectTypeView};
use crate::text;
use crate::text::{concat2, copy_text, decimal_text, same_text};
use vstd::prelude::*;

verus! {

/// What the interface of a device says of itself.
pub const HARMONY_CLASS: u8 = 0xFF;

/// What the interface of a device says of itself.
pub const HARMONY_SUBCLASS: u8 = 0x50;

/// What the interface of a device says of itself.
pub const HARMONY_PROTOCOL: u8 = 0x01;

/// How many endpoints the interface of a device has.
pub const HARMONY_EP_NUM: u8 = 2;

/// A device on USB.
#[derive(Debug, Clone, PartialEq, Eq)]
pub struct UsbDeviceInfo {
    pub serial_number: String,
    pub vendor_id: u16,
    pub product_id: u16,
    pub device_address: u8,
}

/// An endpoint of an interface.
#[derive(Debug, Clone, Copy, PartialEq, Eq, Structural)]
pub struct UsbEndpoint {
    pub address: u8,
    /// It carries bulk transfers.
    pub bulk: bool,
    /// It carries them to the host.
    pub inward: bool,
    pub max_packet_size: u16,
}

/// A setting of an interface.
#[derive(Debug, PartialEq, Eq)]
pub struct UsbSetting {
    pub interface: u8,
    pub class: u8,
    pub sub_class: u8,
    pub protocol: u8,
    pub endpoints: Vec<UsbEndpoint>,
}

/// A setting of an interface.
pub struct UsbSettingView {
    pub interface: u8,
    pub class: u8,
    pub sub_class: u8,
    pub protocol: u8,
    pub endpoints: Seq<UsbEndpoint>,
}

impl View for UsbSetting {
    type V = UsbSettingView;

    open spec fn view(&self) -> UsbSettingView {
        UsbSettingView {
            interface: self.interface,
            class: self.class,
            sub_class: self.sub_class,
            protocol: self.protocol,
            endpoints: self.endpoints@,
        }
    }
}

/// The settings of a device, interface by interface.
pub open spec fn setting_views(v: Seq<UsbSetting>) -> Seq<UsbSettingView> {
    v.map_values(|s: UsbSetting| s@)
}

/// The setting says that it is ours.
pub open spec fn is_ours(s: UsbSettingView) -> bool {
    s.class == HARMONY_CLASS && s.sub_class == HARMONY_SUBCLASS && s.protocol == HARMONY_PROTOCOL
}

fn says_ours(s: &UsbSetting) -> (r: bool)
    ensures
        r == is_ours(s@),
{
    s.class == HARMONY_CLASS && s.sub_class == HARMONY_SUBCLASS && s.protocol == HARMONY_PROTOCOL
}

/// A device with these settings is one of ours.
pub open spec fn serves_hdc(settings: Seq<UsbSettingView>) -> bool {
    exists|i: int|
        0 <= i < settings.len() && is_ours(#[trigger] settings[i]) && settings[i].endpoints.len()
            == HARMONY_EP_NUM
}

/// Tells whether a device with these settings is one of ours.
pub fn is_harmony_device(settings: &[UsbSetting]) -> (r: bool)
    ensures
        r == serves_hdc(setting_views(settings@)),
{
    let ghost views = setting_views(settings@);
    let mut i: usize = 0;
    while i < settings.len()
        invariant
            i <= settings.len(),
            views == setting_views(settings@),
            forall|j: int|
                0 <= j < i ==> !(is_ours(#[trigger] views[j]) && views[j].endpoints.len()
                    == HARMONY_EP_NUM),
        decreases settings.len() - i,
    {
        assert(views[i as int] == settings@[i as int]@);
        if says_ours(&settings[i]) && settings[i].endpoints.len() == HARMONY_EP_NUM as usize {
            return true;
        }
        i = i + 1;
    }
    false
}

/// The address of the last bulk endpoint in a direction.
pub open spec fn bulk_address(endpoints: Seq<UsbEndpoint>, inward: bool) -> Option<u8>
    decreases endpoints.len(),
{
    if endpoints.len() == 0 {
        None
    } else if endpoints.last().bulk && endpoints.last().inward == inward {
        Some(endpoints.last().address)
    } else {
        bulk_address(endpoints.drop_last(), inward)
    }
}

fn find_bulk_address(endpoints: &[UsbEndpoint], inward: bool) -> (r: Option<u8>)
    ensures
        r == bulk_address(endpoints@, inward),
{
    let mut found: Option<u8> = None;
    let mut i: usize = 0;
    while i < endpoints.len()
        invariant
            i <= endpoints.len(),
            found == bulk_address(endpoints@.take(i as int), inward),
        decreases endpoints.len() - i,
    {
        assert(endpoints@.take(i + 1).drop_last() =~= endpoints@.take(i as int));
        let e = endpoints[i];
        if e.bulk && e.inward == inward {
            found = Some(e.address);
        }
        i = i + 1;
    }
    assert(endpoints@.take(i as int) =~= endpoints@);
    found
}

/// The interface and the two endpoints through which a device is spoken to.
#[derive(Debug, Clone, Copy, PartialEq, Eq, Structural)]
pub struct UsbTarget {
    pub interface: u8,
    pub bulk_in: u8,
    pub bulk_out: u8,
    pub max_packet_size: u16,
}

/// The setting is ours and has a bulk endpoint in each direction.
pub open spec fn is_usable(s: UsbSettingView) -> bool {
    is_ours(s) && bulk_address(s.endpoints, true) is Some && bulk_address(s.endpoints, false)
        is Some
}

/// The place of the first setting that can be used, or the number of the settings.
pub open spec fn first_usable(settings: Seq<UsbSettingView>) -> int
    decreases settings.len(),
{
    if settings.len() == 0 || is_usable(settings[0]) {
        0
    } else {
        1 + first_usable(settings.drop_first())
    }
}

/// The packet size of the first endpoint with an address.
pub open spec fn size_among(endpoints: Seq<UsbEndpoint>, address: u8) -> Option<u16>
    decreases endpoints.len(),
{
    if endpoints.len() == 0 {
        None
    } else if endpoints[0].address == address {
        Some(endpoints[0].max_packet_size)
    } else {
        size_among(endpoints.drop_first(), address)
    }
}

/// The packet size of the first endpoint with an address, in whatever setting it is.
pub open spec fn packet_size(settings: Seq<UsbSettingView>, address: u8) -> u16
    decreases settings.len(),
{
    if settings.len() == 0 {
        512
    } else {
        match size_among(settings[0].endpoints, address) {
            Some(n) => n,
            None => packet_size(settings.drop_first(), address),
        }
    }
}

fn find_size_among(endpoints: &[UsbEndpoint], address: u8) -> (r: Option<u16>)
    ensures
        r == size_among(endpoints@, address),
{
    let mut i: usize = 0;
    assert(endpoints@.skip(0) =~= endpoints@);
    while i < endpoints.len()
        invariant
            i <= endpoints.len(),
            size_among(endpoints@, address) == size_among(endpoints@.skip(i as int), address),
        decreases endpoints.len() - i,
    {
        if endpoints[i].address == address {
            return Some(endpoints[i].max_packet_size);
        }
        assert(endpoints@.skip(i as int).drop_first() =~= endpoints@.skip(i + 1));
        i = i + 1;
    }
    None
}

fn find_packet_size(settings: &[UsbSetting], address: u8) -> (r: u16)
    ensures
        r == packet_size(setting_views(settings@), address),
{
    let ghost views = setting_views(settings@);
    let mut i: usize = 0;
    assert(views.skip(0) =~= views);
    while i < settings.len()
        invariant
            i <= settings.len(),
            views == setting_views(settings@),
            packet_size(views, address) == packet_size(views.skip(i as int), address),
        decreases settings.len() - i,
    {
        assert(views.skip(i as int)[0] == settings@[i as int]@);
        match find_size_among(settings[i].endpoints.as_slice(), address) {
            Some(n) => return n,
            None => {},
        }
        assert(views.skip(i as int).drop_first() =~= views.skip(i + 1));
        i = i + 1;
    }
    512
}

/// The interface and the endpoints through which a device is spoken to: those of the
/// first setting that can be used.
pub open spec fn target_of(settings: Seq<UsbSettingView>) -> Option<UsbTarget> {
    let i = first_usable(settings);
    if i < settings.len() {
        let s = settings[i];
        let bulk_out = bulk_address(s.endpoints, false)->Some_0;
        Some(
            UsbTarget {
                interface: s.interface,
                bulk_in: bulk_address(s.endpoints, true)->Some_0,
                bulk_out,
                max_packet_size: packet_size(settings, bulk_out),
            },
        )
    } else {
        None
    }
}

/// The place of the first setting that can be used is one of a setting that can be
/// used, and none before it can.
pub proof fn first_usable_is_first(settings: Seq<UsbSettingView>)
    ensures
        0 <= first_usable(settings) <= settings.len(),
        first_usable(settings) < settings.len() ==> is_usable(settings[first_usable(settings)]),
        forall|j: int| 0 <= j < first_usable(settings) ==> !is_usable(#[trigger] settings[j]),
    decreases settings.len(),
{
    if settings.len() > 0 && !is_usable(settings[0]) {
        let rest = settings.drop_first();
        first_usable_is_first(rest);
        assert forall|j: int| 0 <= j < first_usable(settings) implies !is_usable(
            #[trigger] settings[j],
        ) by {
            if j > 0 {
                assert(settings[j] == rest[j - 1]);
            }
        }
        if first_usable(rest) < rest.len() {
            assert(settings[first_usable(settings)] == rest[first_usable(rest)]);
        }
    }
}

/// The interface and the endpoints through which a device is spoken to.
pub fn choose_target(settings: &[UsbSetting]) -> (r: Option<UsbTarget>)
    ensures
        r == target_of(setting_views(settings@)),
{
    let ghost views = setting_views(settings@);
    let mut i: usize = 0;
    assert(views.skip(0) =~= views);
    while i < settings.len()
        invariant
            i <= settings.len(),
            views == setting_views(settings@),
            first_usable(views) == i + first_usable(views.skip(i as int)),
        decreases settings.len() - i,
    {
        assert(views[i as int] == settings@[i as int]@);
        assert(views.skip(i as int)[0] == views[i as int]);
        if says_ours(&settings[i]) {
            let endpoints = settings[i].endpoints.as_slice();
            match (find_bulk_address(endpoints, true), find_bulk_address(endpoints, false)) {
                (Some(bulk_in), Some(bulk_out)) => {
                    return Some(
                        UsbTarget {
                            interface: settings[i].interface,
                            bulk_in,
                            bulk_out,
                            max_packet_size: find_packet_size(settings, bulk_out),
                        },
                    );
                },
                _ => {},
            }
        }
        assert(views.skip(i as int).drop_first() =~= views.skip(i + 1));
        i = i + 1;
    }
    assert(views.skip(i as int) =~= Seq::<UsbSettingView>::empty());
    None
}

/// Why a transfer on USB failed.
#[derive(Debug, Clone, Copy, PartialEq, Eq, Structural)]
pub enum UsbFault {
    TimedOut,
    Cancelled,
    Stalled,
    Disconnected,
    Overflow,
    Other(i32),
}

/// What the status of a transfer means.
pub open spec fn status_fault(status: i32) -> Option<UsbFault> {
    if status == 0 {
        None
    } else if status == 2 {
        Some(UsbFault::TimedOut)
    } else if status == 3 {
        Some(UsbFault::Cancelled)
    } else if status == 4 {
        Some(UsbFault::Stalled)
    } else if status == 5 {
        Some(UsbFault::Disconnected)
    } else if status == 6 {
        Some(UsbFault::Overflow)
    } else {
        Some(UsbFault::Other(status))
    }
}

/// What the status of a transfer means; nothing, if it went well.
pub fn transfer_fault(status: i32) -> (r: Option<UsbFault>)
    ensures
        r == status_fault(status),
{
    match status {
        0 => None,
        2 => Some(UsbFault::TimedOut),
        3 => Some(UsbFault::Cancelled),
        4 => Some(UsbFault::Stalled),
        5 => Some(UsbFault::Disconnected),
        6 => Some(UsbFault::Overflow),
        _ => Some(UsbFault::Other(status)),
    }
}

/// The digits of a number, behind a sign where it is less than zero.
pub open spec fn signed_text(n: i32) -> Seq<char> {
    if n < 0 {
        "-"@ + text::decimal((-n) as nat)
    } else {
        text::decimal(n as nat)
    }
}

impl UsbFault {
    /// The sentence that reports the fault.
    pub open spec fn text(self) -> Seq<char> {
        match self {
            UsbFault::TimedOut => "USB transfer timed out"@,
            UsbFault::Cancelled => "USB transfer cancelled"@,
            UsbFault::Stalled => "USB transfer stalled"@,
            UsbFault::Disconnected => "USB device disconnected"@,
            UsbFault::Overflow => "USB transfer overflow"@,
            UsbFault::Other(status) => "USB transfer failed: status="@ + signed_text(status),
        }
    }

    /// The sentence that reports the fault.
    pub fn message(&self) -> (r: String)
        ensures
            r@ == self.text(),
    {
        match *self {
            UsbFault::TimedOut => "USB transfer timed out".to_owned(),
            UsbFault::Cancelled => "USB transfer cancelled".to_owned(),
            UsbFault::Stalled => "USB transfer stalled".to_owned(),
            UsbFault::Disconnected => "USB device disconnected".to_owned(),
            UsbFault::Overflow => "USB transfer overflow".to_owned(),
            UsbFault::Other(status) => {
                let digits: String = if status < 0 {
                    let n: i64 = -(status as i64);
                    concat2("-", decimal_text(n as u64).as_str())
                } else {
                    decimal_text(status as u64)
                };
                concat2("USB transfer failed: status=", digits.as_str())
            },
        }
    }
}

// ---------------------------------------------------------------------------
// Devices that come
// ---------------------------------------------------------------------------

/// The devices that are served, and the devices that are listed, after an enumeration.
pub struct UsbNews {
    /// The keys of the devices that are served.
    pub known: Seq<Seq<char>>,
    pub devices: Seq<DeviceView>,
    /// The keys of the devices that a session is begun with.
    pub fresh: Seq<Seq<char>>,
}

/// What comes of the first `n` devices of an enumeration: one that is not served yet is
/// listed, and a session is begun with it.
pub open spec fn after_enumeration(
    known: Seq<Seq<char>>,
    devices: Seq<DeviceView>,
    found: Seq<UsbDeviceInfo>,
    n: nat,
) -> UsbNews
    decreases n,
{
    if n == 0 {
        UsbNews { known, devices, fresh: Seq::empty() }
    } else {
        let before = after_enumeration(known, devices, found, (n - 1) as nat);
        let key = found[n - 1].serial_number@;
        if before.known.contains(key) {
            before
        } else {
            UsbNews {
                known: before.known.push(key),
                devices: connect_map::with_device(
                    before.devices,
                    key,
                    session::found_device(
                        ConnectTypeView::Usb(text::decimal(found[n - 1].device_address as nat)),
                    ),
                ),
                fresh: before.fresh.push(key),
            }
        }
    }
}

/// What comes of an enumeration. Gives the keys of the devices that a session is to be
/// begun with.
pub fn note_devices(
    known: &mut Vec<String>,
    connect_map: &mut ConnectMap,
    found: &[UsbDeviceInfo],
) -> (r: Vec<String>)
    requires
        old(connect_map).wf(),
    ensures
        final(connect_map).wf(),
        ({
            let news = after_enumeration(
                text::texts(old(known)@),
                old(connect_map)@,
                found@,
                found@.len(),
            );
            &&& text::texts(final(known)@) == news.known
            &&& final(connect_map)@ == news.devices
            &&& text::texts(r@) == news.fresh
        }),
{
    let mut fresh: Vec<String> = Vec::new();
    let ghost k0 = text::texts(known@);
    let ghost d0 = connect_map@;
    let mut i: usize = 0;
    assert(text::texts(fresh@) =~= Seq::<Seq<char>>::empty());
    while i < found.len()
        invariant
            i <= found.len(),
            connect_map.wf(),
            text::texts(known@) == after_enumeration(k0, d0, found@, i as nat).known,
            connect_map@ == after_enumeration(k0, d0, found@, i as nat).devices,
            text::texts(fresh@) == after_enumeration(k0, d0, found@, i as nat).fresh,
        decreases found.len() - i,
    {
        let key = found[i].serial_number.as_str();
        let ghost m = (i + 1) as nat;
        assert((m - 1) as nat == i as nat);
        if !contains_word(known.as_slice(), key) {
            let ghost kb = text::texts(known@);
            let ghost fb = text::texts(fresh@);
            known.push(copy_text(key));
            assert(text::texts(known@) =~= kb.push(key@));
            device_found(
                connect_map,
                key,
                ConnectType::Usb(decimal_text(found[i].device_address as u64)),
            );
            fresh.push(copy_text(key));
            assert(text::texts(fresh@) =~= fb.push(key@));
        }
        i = i + 1;
    }
    fresh
}

/// The session with a device is over: it may be found again.
pub fn forget_device(known: &mut Vec<String>, key: &str)
    ensures
        text::texts(final(known)@) == text::texts(old(known)@).filter(|k: Seq<char>| k != key@),
{
    let ghost before = text::texts(known@);
    let ghost keep = |k: Seq<char>| k != key@;
    let mut kept: Vec<String> = Vec::new();
    let mut i: usize = 0;
    assert(text::texts(kept@) =~= Seq::<Seq<char>>::empty());
    assert(before.take(0).filter(keep) =~= Seq::<Seq<char>>::empty()) by {
        reveal(Seq::filter);
        assert(before.take(0).len() == 0);
    }
    while i < known.len()
        invariant
            i <= known.len(),
            before == text::texts(known@),
            keep == (|k: Seq<char>| k != key@),
            text::texts(kept@) == before.take(i as int).filter(keep),
        decreases known.len() - i,
    {
        proof {
            reveal(Seq::filter);
            assert(before.take(i + 1).drop_last() =~= before.take(i as int));
            assert(before.take(i + 1).last() == known@[i as int]@);
        }
        if !same_text(known[i].as_str(), key) {
            let ghost kb = text::texts(kept@);
            kept.push(copy_text(known[i].as_str()));
            assert(text::texts(kept@) =~= kb.push(known@[i as int]@));
        }
        i = i + 1;
    }
    assert(before.take(i as int) =~= before);
    *known = kept;
}

/// No device is served twice: what is known holds each key once, before and after an
/// enumeration.
pub proof fn served_once(known: Seq<Seq<char>>, devices: Seq<DeviceView>, found: Seq<UsbDeviceInfo>, n: nat)
    requires
        known.no_duplicates(),
        n <= found.len(),
    ensures
        after_enumeration(known, devices, found, n).known.no_duplicates(),
        after_enumeration(known, devices, found, n).known == known + after_enumeration(
            known,
            devices,
            found,
            n,
        ).fresh,
    decreases n,
{
    let news = after_enumeration(known, devices, found, n);
    if n == 0 {
        assert(known + news.fresh =~= known);
    } else {
        served_once(known, devices, found, (n - 1) as nat);
        let before = after_enumeration(known, devices, found, (n - 1) as nat);
        let key = found[n - 1].serial_number@;
        if !before.known.contains(key) {
            assert(news.known =~= known + news.fresh);
            assert forall|i: int, j: int|
                0 <= i < news.known.len() && 0 <= j < news.known.len() && i
                    != j implies news.known[i] != news.known[j] by {
                if i < before.known.len() {
                    assert(before.known.contains(before.known[i]));
                }
                if j < before.known.len() {
                    assert(before.known.contains(before.known[j]));
                }
            }
        }
    }
}

/// A device serves when one of its settings has the class 0xFF, the subclass 0x50, the
/// protocol 1 and two endpoints.
pub proof fn serving_devices(settings: Seq<UsbSettingView>, i: int)
    requires
        0 <= i < settings.len(),
    ensures
        settings[i].class == 255 && settings[i].sub_class == 80 && settings[i].protocol == 1
            && settings[i].endpoints.len() == 2 ==> serves_hdc(settings),
        serves_hdc(settings) ==> exists|j: int|
            0 <= j < settings.len() && (#[trigger] settings[j]).class == 255
                && settings[j].sub_class == 80 && settings[j].protocol == 1
                && settings[j].endpoints.len() == 2,
{
}

/// A bulk address is that of a bulk endpoint of the direction that was asked for, and where
/// there is such an endpoint an address is found.
pub proof fn bulk_address_is_of_its_direction(endpoints: Seq<UsbEndpoint>, inward: bool)
    ensures
        bulk_address(endpoints, inward) is Some <==> exists|i: int|
            0 <= i < endpoints.len() && (#[trigger] endpoints[i]).bulk && endpoints[i].inward
                == inward,
        bulk_address(endpoints, inward) is Some ==> exists|i: int|
            0 <= i < endpoints.len() && (#[trigger] endpoints[i]).bulk && endpoints[i].inward
                == inward && bulk_address(endpoints, inward) == Some(endpoints[i].address),
    decreases endpoints.len(),
{
    if endpoints.len() > 0 {
        let rest = endpoints.drop_last();
        bulk_address_is_of_its_direction(rest, inward);
        let n = endpoints.len() - 1;
        assert(endpoints[n] == endpoints.last());
        assert forall|i: int| 0 <= i < n implies rest[i] == #[trigger] endpoints[i] by {}
        if !(endpoints.last().bulk && endpoints.last().inward == inward) {
            if bulk_address(rest, inward) is Some {
                let k = choose|i: int|
                    0 <= i < rest.len() && (#[trigger] rest[i]).bulk && rest[i].inward == inward
                        && bulk_address(rest, inward) == Some(rest[i].address);
                assert(endpoints[k] == rest[k]);
            }
        }
    }
}

/// The size of a packet is that of some endpoint with the address; 512 where no endpoint has
/// it.
pub proof fn packet_size_is_of_the_endpoint(settings: Seq<UsbSettingView>, address: u8)
    ensures
        packet_size(settings, address) == 512 || exists|i: int, k: int|
            0 <= i < settings.len() && 0 <= k < settings[i].endpoints.len() && (
            #[trigger] settings[i].endpoints[k]).address == address
                && settings[i].endpoints[k].max_packet_size == packet_size(settings, address),
        (forall|i: int, k: int|
            0 <= i < settings.len() && 0 <= k < settings[i].endpoints.len() ==> (
            #[trigger] settings[i].endpoints[k]).address != address) ==> packet_size(
            settings,
            address,
        ) == 512,
    decreases settings.len(),
{
    if settings.len() > 0 {
        let rest = settings.drop_first();
        let first = settings[0].endpoints;
        size_is_of_the_endpoint(first, address);
        packet_size_is_of_the_endpoint(rest, address);
        assert forall|i: int| 0 <= i < rest.len() implies #[trigger] rest[i] == settings[i + 1] by {}
        if size_among(first, address) is Some {
            let k = choose|k: int|
                0 <= k < first.len() && (#[trigger] first[k]).address == address && Some(
                    first[k].max_packet_size,
                ) == size_among(first, address);
            assert(settings[0].endpoints[k].address == address);
        } else {
            if packet_size(rest, address) != 512 {
                let (i, k) = choose|i: int, k: int|
                    0 <= i < rest.len() && 0 <= k < rest[i].endpoints.len() && (
                    #[trigger] rest[i].endpoints[k]).address == address
                        && rest[i].endpoints[k].max_packet_size == packet_size(rest, address);
                assert(settings[i + 1].endpoints[k].address == address);
            }
            if forall|i: int, k: int|
                0 <= i < settings.len() && 0 <= k < settings[i].endpoints.len() ==> (
                #[trigger] settings[i].endpoints[k]).address != address {
                assert forall|i: int, k: int|
                    0 <= i < rest.len() && 0 <= k < rest[i].endpoints.len() implies (
                #[trigger] rest[i].endpoints[k]).address != address by {
                    assert(settings[i + 1].endpoints[k].address != address);
                }
            }
        }
    }
}

proof fn size_is_of_the_endpoint(endpoints: Seq<UsbEndpoint>, address: u8)
    ensures
        size_among(endpoints, address) is Some ==> exists|k: int|
            0 <= k < endpoints.len() && (#[trigger] endpoints[k]).address == address && Some(
                endpoints[k].max_packet_size,
            ) == size_among(endpoints, address),
    decreases endpoints.len(),
{
    if endpoints.len() > 0 {
        let rest = endpoints.drop_first();
        size_is_of_the_endpoint(rest, address);
        assert(endpoints[0] == endpoints.first());
        if endpoints[0].address != address && size_among(rest, address) is Some {
            let k = choose|k: int|
                0 <= k < rest.len() && (#[trigger] rest[k]).address == address && Some(
                    rest[k].max_packet_size,
                ) == size_among(rest, address);
            assert(endpoints[k + 1] == rest[k]);
        }
    }
}

/// A device is reached by the first of its settings that has the class 0xFF, the subclass
/// 0x50, the protocol 1 and a bulk endpoint of each direction: it reads from the inward one
/// and writes to the outward one.
pub proof fn target_is_the_first_that_can_be_used(settings: Seq<UsbSettingView>)
    ensures
        ({
            let can_serve = |s: UsbSettingView|
                s.class == 255 && s.sub_class == 80 && s.protocol == 1 && bulk_address(
                    s.endpoints,
                    true,
                ) is Some && bulk_address(s.endpoints, false) is Some;
            let target = target_of(settings);
            &&& target is None <==> forall|j: int|
                0 <= j < settings.len() ==> !can_serve(#[trigger] settings[j])
            &&& target is Some ==> exists|i: int|
                {
                    &&& 0 <= i < settings.len()
                    &&& can_serve(#[trigger] settings[i])
                    &&& forall|j: int| 0 <= j < i ==> !can_serve(#[trigger] settings[j])
                    &&& target->Some_0.interface == settings[i].interface
                    &&& bulk_address(settings[i].endpoints, true) == Some(target->Some_0.bulk_in)
                    &&& bulk_address(settings[i].endpoints, false) == Some(
                        target->Some_0.bulk_out,
                    )
                    &&& target->Some_0.max_packet_size == packet_size(
                        settings,
                        target->Some_0.bulk_out,
                    )
                }
        }),
{
    first_usable_is_first(settings);
    let i = first_usable(settings);
    if i < settings.len() {
        assert(is_usable(settings[i]));
    }
}

/// What the numbers of a transfer's end stand for, and what is said of each.
pub proof fn ends_of_transfers(status: i32)
    ensures
        status_fault(0) is None,
        status != 0 ==> status_fault(status) is Some,
        status_fault(2)->Some_0.text() == "USB transfer timed out"@,
        status_fault(3)->Some_0.text() == "USB transfer cancelled"@,
        status_fault(4)->Some_0.text() == "USB transfer stalled"@,
        status_fault(5)->Some_0.text() == "USB device disconnected"@,
        status_fault(6)->Some_0.text() == "USB transfer overflow"@,
        status == 1 || status > 6 ==> status_fault(status)->Some_0.text()
            == "USB transfer failed: status="@ + text::decimal(status as nat),
        status < 0 ==> status_fault(status)->Some_0.text() == "USB transfer failed: status=-"@
            + text::decimal((-status) as nat),
{
    reveal_strlit("USB transfer failed: status=");
    reveal_strlit("USB transfer failed: status=-");
    reveal_strlit("-");
    assert("USB transfer failed: status=-"@ =~= "USB transfer failed: status="@ + "-"@);
}

/// Every device that was found is served. One that was not known before is put down under its
/// serial number as a device that is ready at its address; what stands under a key that was
/// known stays.
pub proof fn found_devices_are_put_down(
    known: Seq<Seq<char>>,
    devices: Seq<DeviceView>,
    found: Seq<UsbDeviceInfo>,
    n: nat,
    key: Seq<char>,
)
    requires
        connect_map::distinct(devices),
        n <= found.len(),
    ensures
        ({
            let news = after_enumeration(known, devices, found, n);
            &&& connect_map::distinct(news.devices)
            &&& forall|i: int|
                0 <= i < n ==> news.known.contains((#[trigger] found[i]).serial_number@)
            &&& known.contains(key) ==> news.known.contains(key) && !news.fresh.contains(key)
            &&& news.fresh.contains(key) ==> exists|i: int|
                {
                    &&& 0 <= i < n
                    &&& (#[trigger] found[i]).serial_number@ == key
                    &&& connect_map::lookup(news.devices, key) is Some
                    &&& connect_map::lookup(news.devices, key)->Some_0.conn_status
                        == ConnStatus::Ready
                    &&& connect_map::lookup(news.devices, key)->Some_0.conn_type
                        == ConnectTypeView::Usb(text::decimal(found[i].device_address as nat))
                }
            &&& !news.fresh.contains(key) ==> connect_map::lookup(news.devices, key)
                == connect_map::lookup(devices, key)
        }),
    decreases n,
{
    if n > 0 {
        found_devices_are_put_down(known, devices, found, (n - 1) as nat, key);
        let before = after_enumeration(known, devices, found, (n - 1) as nat);
        let news = after_enumeration(known, devices, found, n);
        let last = found[n - 1].serial_number@;
        if !before.known.contains(last) {
            found_devices_are_put_down(known, devices, found, (n - 1) as nat, last);
            let info = session::found_device(
                ConnectTypeView::Usb(text::decimal(found[n - 1].device_address as nat)),
            );
            connect_map::put_is_found(before.devices, last, info, key);
            assert(news.fresh[before.fresh.len() as int] == last);
            assert(news.known[before.known.len() as int] == last);
            assert forall|k: Seq<char>| before.known.contains(k) implies news.known.contains(k) by {
                let j = choose|j: int| 0 <= j < before.known.len() && before.known[j] == k;
                assert(news.known[j] == k);
            }
            if before.fresh.contains(key) {
                let j = choose|j: int| 0 <= j < before.fresh.len() && before.fresh[j] == key;
                assert(news.fresh[j] == key);
            }
            if news.fresh.contains(key) && key != last {
                let j = choose|j: int| 0 <= j < news.fresh.len() && news.fresh[j] == key;
                assert(before.fresh[j] == key);
            }
            if key == last {
                fresh_is_known(known, devices, found, (n - 1) as nat, key);
                assert(found[n - 1].serial_number@ == key);
            }
        }
    }
}

proof fn fresh_is_known(
    known: Seq<Seq<char>>,
    devices: Seq<DeviceView>,
    found: Seq<UsbDeviceInfo>,
    n: nat,
    key: Seq<char>,
)
    requires
        n <= found.len(),
    ensures
        known.contains(key) || after_enumeration(known, devices, found, n).fresh.contains(key)
            ==> after_enumeration(known, devices, found, n).known.contains(key),
    decreases n,
{
    if n > 0 {
        fresh_is_known(known, devices, found, (n - 1) as nat, key);
        let before = after_enumeration(known, devices, found, (n - 1) as nat);
        let news = after_enumeration(known, devices, found, n);
        let last = found[n - 1].serial_number@;
        if !before.known.contains(last) {
            assert(news.known[before.known.len() as int] == last);
            if before.known.contains(key) {
                let j = choose|j: int| 0 <= j < before.known.len() && before.known[j] == key;
                assert(news.known[j] == key);
            }
            if news.fresh.contains(key) {
                let j = choose|j: int| 0 <= j < news.fresh.len() && news.fresh[j] == key;
                if j < before.fresh.len() {
                    assert(before.fresh[j] == key);
                } else {
                    assert(key == last);
                }
            }
        }
    }
}

} // verus!
