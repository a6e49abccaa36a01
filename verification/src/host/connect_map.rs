//! The devices that the server knows, by the key under which they are reached.

use crate::protocol::config::{ConnStatus, ConnectType, ConnectTypeView};
use crate::text;
use crate::text::{concat2, concat3, copy_text, join, same_text, split};
use vstd::prelude::*;

verus! {

/// What is known of a device.
#[derive(Debug, Clone)]
pub struct DaemonInfo {
    pub session_id: u32,
    pub conn_type: ConnectType,
    pub conn_status: ConnStatus,
    pub dev_name: String,
    pub version: String,
}

/// What is known of a device.
pub struct DaemonInfoView {
    pub session_id: u32,
    pub conn_type: ConnectTypeView,
    pub conn_status: ConnStatus,
    pub dev_name: Seq<char>,
    pub version: Seq<char>,
}

impl View for DaemonInfo {
    type V = DaemonInfoView;

    open spec fn view(&self) -> DaemonInfoView {
        DaemonInfoView {
            session_id: self.session_id,
            conn_type: self.conn_type@,
            conn_status: self.conn_status,
            dev_name: self.dev_name@,
            version: self.version@,
        }
    }
}

/// A device under its key.
pub struct DeviceView {
    pub key: Seq<char>,
    pub info: DaemonInfoView,
}

/// A device under its key.
struct Device {
    key: String,
    info: DaemonInfo,
}

/// The devices, in the order in which their keys came.
pub struct ConnectMap {
    devices: Vec<Device>,
}

impl View for ConnectMap {
    type V = Seq<DeviceView>;

    closed spec fn view(&self) -> Seq<DeviceView> {
        Seq::new(
            self.devices@.len(),
            |i: int| DeviceView { key: self.devices@[i].key@, info: self.devices@[i].info@ },
        )
    }
}

// ---------------------------------------------------------------------------
// The devices as a map
// ---------------------------------------------------------------------------

/// No key stands for two devices.
pub open spec fn distinct(devs: Seq<DeviceView>) -> bool {
    forall|i: int, j: int|
        0 <= i < j < devs.len() ==> (#[trigger] devs[i]).key != (#[trigger] devs[j]).key
}

/// The place of a key, or the number of devices without it.
pub open spec fn place_of(devs: Seq<DeviceView>, key: Seq<char>) -> int
    decreases devs.len(),
{
    if devs.len() == 0 || devs[0].key == key {
        0
    } else {
        1 + place_of(devs.drop_first(), key)
    }
}

/// The device under a key.
pub open spec fn lookup(devs: Seq<DeviceView>, key: Seq<char>) -> Option<DaemonInfoView> {
    let i = place_of(devs, key);
    if i < devs.len() {
        Some(devs[i].info)
    } else {
        None
    }
}

/// The devices with one put under a key, in place of the one that was there.
pub open spec fn with_device(devs: Seq<DeviceView>, key: Seq<char>, info: DaemonInfoView) -> Seq<
    DeviceView,
> {
    let i = place_of(devs, key);
    if i < devs.len() {
        devs.update(i, DeviceView { key, info })
    } else {
        devs.push(DeviceView { key, info })
    }
}

/// The devices without the one under a key.
pub open spec fn without_device(devs: Seq<DeviceView>, key: Seq<char>) -> Seq<DeviceView> {
    let i = place_of(devs, key);
    if i < devs.len() {
        devs.remove(i)
    } else {
        devs
    }
}

/// The devices with another status for the one under a key.
pub open spec fn with_status(devs: Seq<DeviceView>, key: Seq<char>, status: ConnStatus) -> Seq<
    DeviceView,
> {
    let i = place_of(devs, key);
    if i < devs.len() {
        devs.update(
            i,
            DeviceView {
                key: devs[i].key,
                info: DaemonInfoView { conn_status: status, ..devs[i].info },
            },
        )
    } else {
        devs
    }
}

/// The place of a key is the first where it stands.
pub proof fn place_is_first(devs: Seq<DeviceView>, key: Seq<char>)
    ensures
        0 <= place_of(devs, key) <= devs.len(),
        place_of(devs, key) < devs.len() ==> devs[place_of(devs, key)].key == key,
        forall|i: int| 0 <= i < place_of(devs, key) ==> (#[trigger] devs[i]).key != key,
    decreases devs.len(),
{
    if devs.len() > 0 && devs[0].key != key {
        let rest = devs.drop_first();
        place_is_first(rest, key);
        assert forall|i: int| 0 <= i < place_of(devs, key) implies (#[trigger] devs[i]).key
            != key by {
            if i > 0 {
                assert(devs[i] == rest[i - 1]);
            }
        }
        if place_of(rest, key) < rest.len() {
            assert(devs[place_of(devs, key)] == rest[place_of(rest, key)]);
        }
    }
}

/// A key that stands at a place, and nowhere else, has that place.
proof fn place_is(devs: Seq<DeviceView>, key: Seq<char>, i: int)
    requires
        distinct(devs),
        0 <= i < devs.len(),
        devs[i].key == key,
    ensures
        place_of(devs, key) == i,
{
    place_is_first(devs, key);
}

/// A device that was put under a key is found there; the devices under other keys
/// stay as they were; no key comes to stand for two devices.
pub proof fn put_is_found(
    devs: Seq<DeviceView>,
    key: Seq<char>,
    info: DaemonInfoView,
    other: Seq<char>,
)
    requires
        distinct(devs),
    ensures
        distinct(with_device(devs, key, info)),
        lookup(with_device(devs, key, info), other) == (if other == key {
            Some(info)
        } else {
            lookup(devs, other)
        }),
{
    let now = with_device(devs, key, info);
    place_is_first(devs, key);
    place_is_first(devs, other);
    place_is_first(now, other);
    let i = place_of(devs, key);
    assert(distinct(now));
    if other == key {
        if i < devs.len() {
            place_is(now, key, i);
        } else {
            place_is(now, key, devs.len() as int);
        }
    } else {
        let j = place_of(devs, other);
        if j < devs.len() {
            assert(now[j] == devs[j]);
            place_is(now, other, j);
        } else if place_of(now, other) < now.len() {
            let k = place_of(now, other);
            assert(now[k].key == other);
            if k < devs.len() {
                assert(devs[k].key == other);
                place_is(devs, other, k);
            }
        }
    }
}

/// A device that was removed is not found; the devices under other keys stay as
/// they were.
pub proof fn removed_is_gone(devs: Seq<DeviceView>, key: Seq<char>, other: Seq<char>)
    requires
        distinct(devs),
    ensures
        distinct(without_device(devs, key)),
        lookup(without_device(devs, key), other) == (if other == key {
            None
        } else {
            lookup(devs, other)
        }),
{
    let now = without_device(devs, key);
    place_is_first(devs, key);
    place_is_first(devs, other);
    place_is_first(now, other);
    let i = place_of(devs, key);
    if i < devs.len() {
        assert forall|a: int, b: int| 0 <= a < b < now.len() implies (#[trigger] now[a]).key != (
        #[trigger] now[b]).key by {
            let a0 = if a < i { a } else { a + 1 };
            let b0 = if b < i { b } else { b + 1 };
            assert(now[a] == devs[a0] && now[b] == devs[b0]);
        }
        let k = place_of(now, other);
        if k < now.len() {
            let k0 = if k < i { k } else { k + 1 };
            assert(now[k] == devs[k0]);
            place_is(devs, other, k0);
        }
        let j = place_of(devs, other);
        if j < devs.len() && other != key {
            let j1 = if j < i { j } else { j - 1 };
            assert(now[j1] == devs[j]);
            place_is(now, other, j1);
        }
    }
}

/// A new status changes nothing but the status of the device under the key.
pub proof fn status_is_changed(
    devs: Seq<DeviceView>,
    key: Seq<char>,
    status: ConnStatus,
    other: Seq<char>,
)
    requires
        distinct(devs),
    ensures
        distinct(with_status(devs, key, status)),
        lookup(with_status(devs, key, status), other) == match lookup(devs, other) {
            Some(info) => Some(
                if other == key {
                    DaemonInfoView { conn_status: status, ..info }
                } else {
                    info
                },
            ),
            None => None,
        },
{
    let now = with_status(devs, key, status);
    place_is_first(devs, key);
    place_is_first(devs, other);
    place_is_first(now, other);
    let j = place_of(devs, other);
    if j < devs.len() {
        assert(now[j].key == other);
        place_is(now, other, j);
    } else if place_of(now, other) < now.len() {
        let k = place_of(now, other);
        assert(devs[k].key == other);
        place_is(devs, other, k);
    }
}

// ---------------------------------------------------------------------------
// Choosing a device
// ---------------------------------------------------------------------------

/// The place of the first connected device, or the number of devices.
pub open spec fn first_connected(devs: Seq<DeviceView>) -> int
    decreases devs.len(),
{
    if devs.len() == 0 || devs[0].info.conn_status == ConnStatus::Connected {
        0
    } else {
        1 + first_connected(devs.drop_first())
    }
}

/// The first connected device has no connected device before it.
pub proof fn first_connected_is_first(devs: Seq<DeviceView>)
    ensures
        0 <= first_connected(devs) <= devs.len(),
        first_connected(devs) < devs.len() ==> devs[first_connected(devs)].info.conn_status
            == ConnStatus::Connected,
        forall|i: int|
            0 <= i < first_connected(devs) ==> (#[trigger] devs[i]).info.conn_status
                != ConnStatus::Connected,
    decreases devs.len(),
{
    if devs.len() > 0 && devs[0].info.conn_status != ConnStatus::Connected {
        let rest = devs.drop_first();
        first_connected_is_first(rest);
        assert forall|i: int| 0 <= i < first_connected(devs) implies (
        #[trigger] devs[i]).info.conn_status != ConnStatus::Connected by {
            if i > 0 {
                assert(devs[i] == rest[i - 1]);
            }
        }
        if first_connected(rest) < rest.len() {
            assert(devs[first_connected(devs)] == rest[first_connected(rest)]);
        }
    }
}

/// The session of a key. `any` stands for the first connected device, or for the
/// only device there is.
pub open spec fn session_of(devs: Seq<DeviceView>, key: Seq<char>) -> Option<u32> {
    if key == "any"@ {
        let i = first_connected(devs);
        if i < devs.len() {
            Some(devs[i].info.session_id)
        } else if devs.len() == 1 {
            Some(devs[0].info.session_id)
        } else {
            None
        }
    } else {
        match lookup(devs, key) {
            Some(info) => Some(info.session_id),
            None => None,
        }
    }
}

/// The place of the first device with a session, or the number of devices.
pub open spec fn place_of_session(devs: Seq<DeviceView>, session_id: u32) -> int
    decreases devs.len(),
{
    if devs.len() == 0 || devs[0].info.session_id == session_id {
        0
    } else {
        1 + place_of_session(devs.drop_first(), session_id)
    }
}

proof fn place_of_session_is_first(devs: Seq<DeviceView>, session_id: u32)
    ensures
        0 <= place_of_session(devs, session_id) <= devs.len(),
        place_of_session(devs, session_id) < devs.len() ==> devs[place_of_session(
            devs,
            session_id,
        )].info.session_id == session_id,
        forall|i: int|
            0 <= i < place_of_session(devs, session_id) ==> (#[trigger] devs[i]).info.session_id
                != session_id,
    decreases devs.len(),
{
    if devs.len() > 0 && devs[0].info.session_id != session_id {
        let rest = devs.drop_first();
        place_of_session_is_first(rest, session_id);
        assert forall|i: int| 0 <= i < place_of_session(devs, session_id) implies (
        #[trigger] devs[i]).info.session_id != session_id by {
            if i > 0 {
                assert(devs[i] == rest[i - 1]);
            }
        }
        if place_of_session(rest, session_id) < rest.len() {
            assert(devs[place_of_session(devs, session_id)] == rest[place_of_session(
                rest,
                session_id,
            )]);
        }
    }
}

/// The name of a way to reach a device.
pub open spec fn way_name(t: ConnectTypeView) -> Seq<char> {
    match t {
        ConnectTypeView::Tcp => "TCP"@,
        ConnectTypeView::Usb(_) => "USB"@,
        ConnectTypeView::Uart => "UART"@,
        ConnectTypeView::Bt => "BT"@,
        ConnectTypeView::HostUsb(_) => "HOSTUSB"@,
        ConnectTypeView::Bridge => "BRIDGE"@,
    }
}

/// The name of a status.
pub open spec fn status_name(s: ConnStatus) -> Seq<char> {
    match s {
        ConnStatus::Ready => "Ready"@,
        ConnStatus::Connected => "Connected"@,
        ConnStatus::Offline => "Offline"@,
        ConnStatus::Unauthorized => "Unauthorized"@,
    }
}

/// The line that describes a device.
pub open spec fn device_line(d: DeviceView) -> Seq<char> {
    d.key + "\t\t"@ + way_name(d.info.conn_type) + "\t"@ + status_name(d.info.conn_status) + "\t"@
        + (if d.info.dev_name.len() == 0 {
        "unknown..."@
    } else {
        d.info.dev_name
    })
}

/// The list of the devices: a line for each, or only the keys of the connected
/// ones.
pub open spec fn device_list(devs: Seq<DeviceView>, is_full: bool) -> Seq<Seq<char>>
    decreases devs.len(),
{
    if devs.len() == 0 {
        Seq::empty()
    } else {
        let before = device_list(devs.drop_last(), is_full);
        let d = devs.last();
        if is_full {
            before.push(device_line(d))
        } else if d.info.conn_status == ConnStatus::Connected {
            before.push(d.key)
        } else {
            before
        }
    }
}

/// The connected devices, in their order.
pub open spec fn connected(devs: Seq<DeviceView>) -> Seq<DeviceView>
    decreases devs.len(),
{
    if devs.len() == 0 {
        Seq::empty()
    } else {
        let before = connected(devs.drop_last());
        if devs.last().info.conn_status == ConnStatus::Connected {
            before.push(devs.last())
        } else {
            before
        }
    }
}

/// Why no device was chosen.
#[derive(Debug, Clone, PartialEq, Eq)]
pub enum ResolveError {
    /// No device is connected.
    NoDevice,
    /// Several devices are connected; their lines are told.
    Multiple(String),
    /// The device under a key is not known; the key is told.
    NotConnected(String),
}

/// Why no device was chosen.
pub enum ResolveErrorView {
    NoDevice,
    Multiple(Seq<char>),
    NotConnected(Seq<char>),
}

impl View for ResolveError {
    type V = ResolveErrorView;

    open spec fn view(&self) -> ResolveErrorView {
        match *self {
            ResolveError::NoDevice => ResolveErrorView::NoDevice,
            ResolveError::Multiple(lines) => ResolveErrorView::Multiple(lines@),
            ResolveError::NotConnected(key) => ResolveErrorView::NotConnected(key@),
        }
    }
}

impl ResolveErrorView {
    /// The sentence that reports the error.
    pub open spec fn text(self) -> Seq<char> {
        match self {
            ResolveErrorView::NoDevice => "No device connected"@,
            ResolveErrorView::Multiple(lines) =>
                "Multiple devices connected, please specify target with -t option:\n"@ + lines,
            ResolveErrorView::NotConnected(key) => "Device "@ + key + " is not connected"@,
        }
    }
}

impl ResolveError {
    /// The sentence that reports the error.
    pub fn message(&self) -> (r: String)
        ensures
            r@ == self@.text(),
    {
        match self {
            ResolveError::NoDevice => "No device connected".to_owned(),
            ResolveError::Multiple(lines) => concat2(
                "Multiple devices connected, please specify target with -t option:\n",
                lines.as_str(),
            ),
            ResolveError::NotConnected(key) => concat3(
                "Device ",
                key.as_str(),
                " is not connected",
            ),
        }
    }
}

/// The key that a target stands for. `any` stands for the one connected device.
pub open spec fn resolved_key(devs: Seq<DeviceView>, target: Seq<char>) -> Result<
    Seq<char>,
    ResolveErrorView,
> {
    if target == "any"@ {
        let found = connected(devs);
        if found.len() == 0 {
            Err(ResolveErrorView::NoDevice)
        } else if found.len() == 1 {
            Ok(found[0].key)
        } else {
            Err(ResolveErrorView::Multiple(text::joined(device_list(found, true), "\n"@)))
        }
    } else {
        Ok(target)
    }
}

/// The session that a target stands for.
pub open spec fn resolved_session(devs: Seq<DeviceView>, target: Seq<char>) -> Result<
    u32,
    ResolveErrorView,
> {
    match resolved_key(devs, target) {
        Err(e) => Err(e),
        Ok(key) => match session_of(devs, key) {
            Some(id) => Ok(id),
            None => Err(ResolveErrorView::NotConnected(key)),
        },
    }
}

/// The parts of a line that are not empty.
pub open spec fn columns(line: Seq<char>) -> Seq<Seq<char>> {
    filled(text::split_parts(line, '\t'))
}

/// The texts that are not empty.
pub open spec fn filled(parts: Seq<Seq<char>>) -> Seq<Seq<char>>
    decreases parts.len(),
{
    if parts.len() == 0 {
        Seq::empty()
    } else if parts.last().len() == 0 {
        filled(parts.drop_last())
    } else {
        filled(parts.drop_last()).push(parts.last())
    }
}

/// The key of the device that a development environment works with: that of the first
/// connected device.
pub open spec fn default_key(devs: Seq<DeviceView>) -> Option<Seq<char>> {
    let i = first_connected(devs);
    if i < devs.len() {
        Some(devs[i].key)
    } else {
        None
    }
}

/// A line for a development environment: key, way and status of every device,
/// separated by blanks. A line without four columns is left out.
pub open spec fn ide_lines(lines: Seq<Seq<char>>) -> Seq<char>
    decreases lines.len(),
{
    if lines.len() == 0 {
        Seq::empty()
    } else {
        let before = ide_lines(lines.drop_last());
        let c = columns(lines.last());
        if c.len() >= 4 {
            before + (if before.len() == 0 {
                Seq::empty()
            } else {
                "\n"@
            }) + c[0] + " "@ + c[1] + " "@ + c[2]
        } else {
            before
        }
    }
}

fn type_text(t: &ConnectType) -> (r: String)
    ensures
        r@ == way_name(t@),
{
    match t {
        ConnectType::Tcp => "TCP".to_owned(),
        ConnectType::Usb(_) => "USB".to_owned(),
        ConnectType::Uart => "UART".to_owned(),
        ConnectType::Bt => "BT".to_owned(),
        ConnectType::HostUsb(_) => "HOSTUSB".to_owned(),
        ConnectType::Bridge => "BRIDGE".to_owned(),
    }
}

fn status_text(s: ConnStatus) -> (r: String)
    ensures
        r@ == status_name(s),
{
    match s {
        ConnStatus::Ready => "Ready".to_owned(),
        ConnStatus::Connected => "Connected".to_owned(),
        ConnStatus::Offline => "Offline".to_owned(),
        ConnStatus::Unauthorized => "Unauthorized".to_owned(),
    }
}

fn line_of(d: &Device) -> (r: String)
    ensures
        r@ == device_line(DeviceView { key: d.key@, info: d.info@ }),
{
    let mut line = copy_text(d.key.as_str());
    line.append("\t\t");
    line.append(type_text(&d.info.conn_type).as_str());
    line.append("\t");
    line.append(status_text(d.info.conn_status).as_str());
    line.append("\t");
    if d.info.dev_name.as_str().is_empty() {
        line.append("unknown...");
    } else {
        line.append(d.info.dev_name.as_str());
    }
    line
}

impl ConnectMap {
    /// No key stands for two devices.
    pub open spec fn wf(self) -> bool {
        distinct(self@)
    }

    /// No devices.
    pub fn new() -> (r: Self)
        ensures
            r.wf(),
            r@ == Seq::<DeviceView>::empty(),
    {
        let r = ConnectMap { devices: Vec::new() };
        assert(r@ =~= Seq::<DeviceView>::empty());
        r
    }

    fn find(&self, connect_key: &str) -> (r: usize)
        ensures
            r == place_of(self@, connect_key@),
            r <= self.devices@.len(),
    {
        proof {
            place_is_first(self@, connect_key@);
        }
        let mut i: usize = 0;
        while i < self.devices.len()
            invariant
                i <= self.devices@.len(),
                0 <= place_of(self@, connect_key@) <= self@.len(),
                place_of(self@, connect_key@) < self@.len() ==> self@[place_of(
                    self@,
                    connect_key@,
                )].key == connect_key@,
                forall|j: int| 0 <= j < i ==> (#[trigger] self@[j]).key != connect_key@,
                forall|j: int|
                    0 <= j < place_of(self@, connect_key@) ==> (#[trigger] self@[j]).key
                        != connect_key@,
            decreases self.devices@.len() - i,
        {
            assert(self@[i as int].key == self.devices@[i as int].key@);
            if same_text(self.devices[i].key.as_str(), connect_key) {
                return i;
            }
            i += 1;
        }
        i
    }

    /// Puts a device under a key.
    pub fn put(&mut self, connect_key: String, info: DaemonInfo)
        requires
            old(self).wf(),
        ensures
            final(self).wf(),
            final(self)@ == with_device(old(self)@, connect_key@, info@),
    {
        proof {
            put_is_found(self@, connect_key@, info@, connect_key@);
        }
        let i: usize = self.find(connect_key.as_str());
        let ghost now = with_device(self@, connect_key@, info@);
        if i < self.devices.len() {
            self.devices[i] = Device { key: connect_key, info };
        } else {
            self.devices.push(Device { key: connect_key, info });
        }
        assert(self@ =~= now);
    }

    /// Removes the device under a key.
    pub fn remove(&mut self, connect_key: &str)
        requires
            old(self).wf(),
        ensures
            final(self).wf(),
            final(self)@ == without_device(old(self)@, connect_key@),
    {
        proof {
            removed_is_gone(self@, connect_key@, connect_key@);
        }
        let i: usize = self.find(connect_key);
        let ghost now = without_device(self@, connect_key@);
        if i < self.devices.len() {
            let _ = self.devices.remove(i);
        }
        assert(self@ =~= now);
    }

    /// Whether there is a device under a key.
    pub fn contains_key(&self, connect_key: &str) -> (r: bool)
        ensures
            r == (lookup(self@, connect_key@) is Some),
    {
        self.find(connect_key) < self.devices.len()
    }

    /// Changes the status of the device under a key.
    pub fn update_status(&mut self, connect_key: &str, status: ConnStatus)
        requires
            old(self).wf(),
        ensures
            final(self).wf(),
            final(self)@ == with_status(old(self)@, connect_key@, status),
    {
        proof {
            status_is_changed(self@, connect_key@, status, connect_key@);
        }
        let i: usize = self.find(connect_key);
        let ghost now = with_status(self@, connect_key@, status);
        if i < self.devices.len() {
            self.devices[i].info.conn_status = status;
        }
        assert(self@ =~= now);
    }

    fn find_connected(&self) -> (r: usize)
        ensures
            r == first_connected(self@),
            r <= self.devices@.len(),
    {
        proof {
            first_connected_is_first(self@);
        }
        let mut i: usize = 0;
        while i < self.devices.len()
            invariant
                i <= self.devices@.len(),
                0 <= first_connected(self@) <= self@.len(),
                first_connected(self@) < self@.len() ==> self@[first_connected(
                    self@,
                )].info.conn_status == ConnStatus::Connected,
                forall|j: int|
                    0 <= j < i ==> (#[trigger] self@[j]).info.conn_status != ConnStatus::Connected,
                forall|j: int|
                    0 <= j < first_connected(self@) ==> (#[trigger] self@[j]).info.conn_status
                        != ConnStatus::Connected,
            decreases self.devices@.len() - i,
        {
            assert(self@[i as int].info.conn_status == self.devices@[i as int].info.conn_status);
            if self.devices[i].info.conn_status == ConnStatus::Connected {
                return i;
            }
            i += 1;
        }
        i
    }

    /// The session of a key.
    pub fn get_session_id(&self, connect_key: &str) -> (r: Option<u32>)
        ensures
            r == session_of(self@, connect_key@),
    {
        if same_text(connect_key, "any") {
            let i: usize = self.find_connected();
            if i < self.devices.len() {
                Some(self.devices[i].info.session_id)
            } else if self.devices.len() == 1 {
                Some(self.devices[0].info.session_id)
            } else {
                None
            }
        } else {
            let i: usize = self.find(connect_key);
            if i < self.devices.len() {
                Some(self.devices[i].info.session_id)
            } else {
                None
            }
        }
    }

    /// The key of a session.
    pub fn get_connect_key(&self, session_id: u32) -> (r: Option<String>)
        ensures
            match r {
                Some(key) => place_of_session(self@, session_id) < self@.len() && key@
                    == self@[place_of_session(self@, session_id)].key,
                None => forall|i: int|
                    0 <= i < self@.len() ==> (#[trigger] self@[i]).info.session_id != session_id,
            },
    {
        proof {
            place_of_session_is_first(self@, session_id);
        }
        let mut i: usize = 0;
        while i < self.devices.len()
            invariant
                i <= self.devices@.len(),
                0 <= place_of_session(self@, session_id) <= self@.len(),
                place_of_session(self@, session_id) < self@.len() ==> self@[place_of_session(
                    self@,
                    session_id,
                )].info.session_id == session_id,
                forall|j: int|
                    0 <= j < i ==> (#[trigger] self@[j]).info.session_id != session_id,
                forall|j: int|
                    0 <= j < place_of_session(self@, session_id) ==> (
                    #[trigger] self@[j]).info.session_id != session_id,
            decreases self.devices@.len() - i,
        {
            assert(self@[i as int].info.session_id == self.devices@[i as int].info.session_id);
            if self.devices[i].info.session_id == session_id {
                return Some(copy_text(self.devices[i].key.as_str()));
            }
            i += 1;
        }
        None
    }

    /// The list of the devices.
    pub fn get_list(&self, is_full: bool) -> (r: Vec<String>)
        ensures
            text::texts(r@) == device_list(self@, is_full),
    {
        let mut list: Vec<String> = Vec::new();
        let mut i: usize = 0;
        assert(text::texts(list@) =~= device_list(self@.take(0), is_full));
        while i < self.devices.len()
            invariant
                i <= self.devices@.len(),
                text::texts(list@) == device_list(self@.take(i as int), is_full),
            decreases self.devices@.len() - i,
        {
            let ghost before = text::texts(list@);
            assert(self@.take(i + 1).drop_last() =~= self@.take(i as int));
            let d = &self.devices[i];
            let ghost dv = self@[i as int];
            if is_full {
                list.push(line_of(d));
                assert(text::texts(list@) =~= before.push(device_line(dv)));
            } else if d.info.conn_status == ConnStatus::Connected {
                list.push(copy_text(d.key.as_str()));
                assert(text::texts(list@) =~= before.push(dv.key));
            }
            i += 1;
        }
        assert(self@.take(i as int) =~= self@);
        list
    }

    /// The lines of the connected devices.
    fn connected_list(&self) -> (r: Vec<String>)
        ensures
            text::texts(r@) == device_list(connected(self@), true),
            r@.len() == connected(self@).len(),
    {
        let mut list: Vec<String> = Vec::new();
        let mut i: usize = 0;
        assert(text::texts(list@) =~= device_list(connected(self@.take(0)), true));
        while i < self.devices.len()
            invariant
                i <= self.devices@.len(),
                text::texts(list@) == device_list(connected(self@.take(i as int)), true),
            decreases self.devices@.len() - i,
        {
            let ghost before = text::texts(list@);
            let ghost found = connected(self@.take(i as int));
            assert(self@.take(i + 1).drop_last() =~= self@.take(i as int));
            let d = &self.devices[i];
            let ghost dv = self@[i as int];
            if d.info.conn_status == ConnStatus::Connected {
                list.push(line_of(d));
                assert(text::texts(list@) =~= before.push(device_line(dv)));
                assert(found.push(dv).drop_last() =~= found);
            }
            i += 1;
        }
        assert(self@.take(i as int) =~= self@);
        proof {
            lines_of_devices(connected(self@));
            assert(text::texts(list@).len() == list@.len());
        }
        list
    }

    /// The key of the first connected device.
    pub fn get_first_connected_key(&self) -> (r: Option<String>)
        ensures
            match r {
                Some(key) => first_connected(self@) < self@.len() && key@ == self@[first_connected(
                    self@,
                )].key,
                None => first_connected(self@) == self@.len(),
            },
    {
        let i: usize = self.find_connected();
        if i < self.devices.len() {
            Some(copy_text(self.devices[i].key.as_str()))
        } else {
            None
        }
    }
}

/// The key that a target stands for.
pub fn resolve_connect_key(connect_map: &ConnectMap, connect_key: &str) -> (r: Result<
    String,
    ResolveError,
>)
    ensures
        match r {
            Ok(key) => resolved_key(connect_map@, connect_key@) == Ok::<_, ResolveErrorView>(key@),
            Err(e) => resolved_key(connect_map@, connect_key@) == Err::<Seq<char>, _>(e@),
        },
{
    if !same_text(connect_key, "any") {
        return Ok(copy_text(connect_key));
    }
    let lines = connect_map.connected_list();
    proof {
        connected_begins(connect_map@);
    }
    match connect_map.get_first_connected_key() {
        None => Err(ResolveError::NoDevice),
        Some(key) => if lines.len() == 1 {
            Ok(key)
        } else {
            Err(ResolveError::Multiple(join(&lines, "\n")))
        },
    }
}

/// The session that a target stands for.
pub fn resolve_session_id(connect_map: &ConnectMap, connect_key: &str) -> (r: Result<
    u32,
    ResolveError,
>)
    ensures
        match r {
            Ok(id) => resolved_session(connect_map@, connect_key@) == Ok::<_, ResolveErrorView>(id),
            Err(e) => resolved_session(connect_map@, connect_key@) == Err::<u32, _>(e@),
        },
{
    match resolve_connect_key(connect_map, connect_key) {
        Err(e) => Err(e),
        Ok(key) => match connect_map.get_session_id(key.as_str()) {
            Some(id) => Ok(id),
            None => Err(ResolveError::NotConnected(key)),
        },
    }
}

/// The parts of a line that are not empty.
fn columns_of(line: &str) -> (r: Vec<String>)
    ensures
        text::texts(r@) == columns(line@),
{
    let parts = split(line, '\t');
    let mut out: Vec<String> = Vec::new();
    let mut i: usize = 0;
    assert(text::texts(out@) =~= filled(text::texts(parts@).take(0)));
    while i < parts.len()
        invariant
            i <= parts@.len(),
            text::texts(out@) == filled(text::texts(parts@).take(i as int)),
        decreases parts@.len() - i,
    {
        let ghost before = text::texts(out@);
        assert(text::texts(parts@).take(i + 1).drop_last() =~= text::texts(parts@).take(i as int));
        if !parts[i].as_str().is_empty() {
            out.push(copy_text(parts[i].as_str()));
            assert(text::texts(out@) =~= before.push(parts@[i as int]@));
        }
        i += 1;
    }
    assert(text::texts(parts@).take(i as int) =~= text::texts(parts@));
    out
}

/// The key of the device that a development environment works with.
pub fn get_default_connect_key(connect_map: &ConnectMap) -> (r: Option<String>)
    ensures
        match r {
            Some(key) => default_key(connect_map@) == Some(key@),
            None => default_key(connect_map@) is None,
        },
{
    connect_map.get_first_connected_key()
}

/// What a development environment is told of the devices.
pub fn ide_device_list(connect_map: &ConnectMap) -> (r: String)
    ensures
        r@ == ide_lines(device_list(connect_map@, true)),
{
    let list = connect_map.get_list(true);
    let ghost lines = text::texts(list@);
    let mut out = String::new();
    let mut i: usize = 0;
    assert(lines.take(0) =~= Seq::<Seq<char>>::empty());
    while i < list.len()
        invariant
            i <= list@.len(),
            lines == text::texts(list@),
            out@ == ide_lines(lines.take(i as int)),
        decreases list@.len() - i,
    {
        assert(lines.take(i + 1).drop_last() =~= lines.take(i as int));
        let c = columns_of(list[i].as_str());
        let ghost before = out@;
        if c.len() >= 4 {
            proof {
                assert(text::texts(c@)[0] == c@[0]@ && text::texts(c@)[1] == c@[1]@ && text::texts(c@)[2] == c@[2]@);
            }
            if !out.as_str().is_empty() {
                out.append("\n");
            } else {
                assert(before + Seq::<char>::empty() =~= before);
            }
            out.append(c[0].as_str());
            out.append(" ");
            out.append(c[1].as_str());
            out.append(" ");
            out.append(c[2].as_str());
        }
        i += 1;
    }
    assert(lines.take(i as int) =~= lines);
    out
}

/// The full list holds one line for every device, in their order.
proof fn lines_of_devices(devs: Seq<DeviceView>)
    ensures
        device_list(devs, true).len() == devs.len(),
        forall|j: int|
            0 <= j < devs.len() ==> #[trigger] device_list(devs, true)[j] == device_line(devs[j]),
    decreases devs.len(),
{
    if devs.len() > 0 {
        lines_of_devices(devs.drop_last());
    }
}

/// The connected devices begin with the first one.
proof fn connected_begins(devs: Seq<DeviceView>)
    ensures
        connected(devs).len() > 0 <==> first_connected(devs) < devs.len(),
        connected(devs).len() > 0 ==> connected(devs)[0] == devs[first_connected(devs)],
    decreases devs.len(),
{
    first_connected_is_first(devs);
    if devs.len() > 0 {
        let rest = devs.drop_last();
        connected_begins(rest);
        first_connected_is_first(rest);
        let i = first_connected(rest);
        let j = first_connected(devs);
        if i < rest.len() {
            assert(devs[i] == rest[i]);
            assert(i == j) by {
                if j < i {
                    assert(rest[j] == devs[j]);
                }
            }
        } else if j < rest.len() {
            assert(rest[j] == devs[j]);
        }
    }
}

/// Where no device is connected, none is left.
proof fn none_connected(devs: Seq<DeviceView>)
    requires
        forall|j: int|
            0 <= j < devs.len() ==> (#[trigger] devs[j]).info.conn_status != ConnStatus::Connected,
    ensures
        connected(devs) == Seq::<DeviceView>::empty(),
    decreases devs.len(),
{
    if devs.len() > 0 {
        assert(devs.last() == devs[devs.len() - 1]);
        none_connected(devs.drop_last());
    }
}

/// Where one device is connected, it is what is left.
proof fn one_connected(devs: Seq<DeviceView>, i: int)
    requires
        0 <= i < devs.len(),
        devs[i].info.conn_status == ConnStatus::Connected,
        forall|j: int|
            0 <= j < devs.len() && j != i ==> (#[trigger] devs[j]).info.conn_status
                != ConnStatus::Connected,
    ensures
        connected(devs) == seq![devs[i]],
    decreases devs.len(),
{
    assert(devs.last() == devs[devs.len() - 1]);
    if i == devs.len() - 1 {
        none_connected(devs.drop_last());
        assert(Seq::<DeviceView>::empty().push(devs[i]) =~= seq![devs[i]]);
    } else {
        one_connected(devs.drop_last(), i);
    }
}

/// A connected device is among the connected ones, and nothing else is.
pub proof fn connected_are_connected(devs: Seq<DeviceView>, d: DeviceView)
    ensures
        connected(devs).contains(d) <==> devs.contains(d) && d.info.conn_status
            == ConnStatus::Connected,
    decreases devs.len(),
{
    if devs.len() > 0 {
        let rest = devs.drop_last();
        let before = connected(rest);
        let now = connected(devs);
        connected_are_connected(rest, d);
        if now.contains(d) {
            let k = choose|k: int| 0 <= k < now.len() && now[k] == d;
            if k < before.len() {
                assert(before[k] == d);
                let j = choose|j: int| 0 <= j < rest.len() && rest[j] == d;
                assert(devs[j] == d);
            } else {
                assert(devs[devs.len() - 1] == d);
            }
        }
        if devs.contains(d) && d.info.conn_status == ConnStatus::Connected {
            let j = choose|j: int| 0 <= j < devs.len() && devs[j] == d;
            if j < rest.len() {
                assert(rest[j] == d);
                let k = choose|k: int| 0 <= k < before.len() && before[k] == d;
                assert(now[k] == d);
            } else {
                assert(now[now.len() - 1] == d);
            }
        }
    }
}

/// Two connected devices are left.
proof fn two_connected(devs: Seq<DeviceView>, i: int, j: int)
    requires
        0 <= i < j < devs.len(),
        devs[i].info.conn_status == ConnStatus::Connected,
        devs[j].info.conn_status == ConnStatus::Connected,
    ensures
        connected(devs).len() >= 2,
    decreases devs.len(),
{
    let rest = devs.drop_last();
    if j == devs.len() - 1 {
        assert(rest[i] == devs[i]);
        connected_are_connected(rest, devs[i]);
        assert(rest.contains(devs[i]));
        assert(connected(rest).len() > 0);
    } else {
        two_connected(rest, i, j);
    }
}

/// Where one device alone is connected, `any` stands for it, and for its session.
pub proof fn only_device_is_chosen(devs: Seq<DeviceView>, i: int)
    requires
        distinct(devs),
        0 <= i < devs.len(),
        devs[i].info.conn_status == ConnStatus::Connected,
        forall|j: int|
            0 <= j < devs.len() && j != i ==> (#[trigger] devs[j]).info.conn_status
                != ConnStatus::Connected,
    ensures
        resolved_key(devs, "any"@) == Ok::<Seq<char>, ResolveErrorView>(devs[i].key),
        resolved_session(devs, "any"@) == Ok::<u32, ResolveErrorView>(devs[i].info.session_id),
{
    one_connected(devs, i);
    place_is(devs, devs[i].key, i);
    first_connected_is_first(devs);
}

/// Where no device is connected, `any` stands for none.
pub proof fn no_device_is_told(devs: Seq<DeviceView>)
    requires
        forall|j: int|
            0 <= j < devs.len() ==> (#[trigger] devs[j]).info.conn_status != ConnStatus::Connected,
    ensures
        resolved_key(devs, "any"@) == Err::<Seq<char>, ResolveErrorView>(
            ResolveErrorView::NoDevice,
        ),
{
    none_connected(devs);
}

/// Where two devices are connected, `any` stands for none, and the user is told of all that
/// are.
pub proof fn several_devices_are_told(devs: Seq<DeviceView>, i: int, j: int)
    requires
        0 <= i < j < devs.len(),
        devs[i].info.conn_status == ConnStatus::Connected,
        devs[j].info.conn_status == ConnStatus::Connected,
    ensures
        resolved_key(devs, "any"@) == Err::<Seq<char>, ResolveErrorView>(
            ResolveErrorView::Multiple(
                text::joined(device_list(connected(devs), true), "\n"@),
            ),
        ),
{
    two_connected(devs, i, j);
}

/// What is not empty of two lists, one after the other.
proof fn filled_of_two(a: Seq<Seq<char>>, b: Seq<Seq<char>>)
    ensures
        filled(a + b) == filled(a) + filled(b),
    decreases b.len(),
{
    if b.len() == 0 {
        assert(a + b =~= a);
        assert(filled(a) + filled(b) =~= filled(a));
    } else {
        filled_of_two(a, b.drop_last());
        assert((a + b).drop_last() =~= a + b.drop_last());
        assert(filled(a + b) =~= filled(a) + filled(b));
    }
}

/// A text with something else than tabulators has a part that is not empty.
proof fn something_is_filled(s: Seq<char>, k: int)
    requires
        0 <= k < s.len(),
        s[k] != '\t',
    ensures
        filled(text::split_parts(s, '\t')).len() > 0,
    decreases s.len(),
{
    let parts = text::split_parts(s.drop_last(), '\t');
    text::split_parts_not_empty(s.drop_last(), '\t');
    if s.last() == '\t' {
        something_is_filled(s.drop_last(), k);
        assert(parts.push(Seq::<char>::empty()).drop_last() =~= parts);
    } else {
        let last = parts.last().push(s.last());
        assert(parts.drop_last().push(last).drop_last() =~= parts.drop_last());
        assert(last.len() > 0);
    }
}

/// The line of a device for a development environment: its key, its way and its status.
pub open spec fn ide_line(d: DeviceView) -> Seq<char> {
    d.key + " "@ + way_name(d.info.conn_type) + " "@ + status_name(d.info.conn_status)
}

/// The lines of devices for a development environment.
pub open spec fn ide_device_lines(devs: Seq<DeviceView>) -> Seq<Seq<char>> {
    Seq::new(devs.len(), |i: int| ide_line(devs[i]))
}

/// A device is told in columns: its key is not empty and holds no tabulator, and its name
/// is empty or holds something else than tabulators.
pub open spec fn in_columns(d: DeviceView) -> bool {
    &&& d.key.len() > 0
    &&& !d.key.contains('\t')
    &&& d.info.dev_name.len() == 0 || exists|k: int|
        0 <= k < d.info.dev_name.len() && #[trigger] d.info.dev_name[k] != '\t'
}

proof fn names_hold_no_tabulator(t: ConnectTypeView, s: ConnStatus)
    ensures
        way_name(t).len() > 0,
        !way_name(t).contains('\t'),
        status_name(s).len() > 0,
        !status_name(s).contains('\t'),
{
    reveal_strlit("TCP");
    reveal_strlit("USB");
    reveal_strlit("UART");
    reveal_strlit("BT");
    reveal_strlit("HOSTUSB");
    reveal_strlit("BRIDGE");
    reveal_strlit("Ready");
    reveal_strlit("Connected");
    reveal_strlit("Offline");
    reveal_strlit("Unauthorized");
}

/// The columns of the line of a device.
proof fn columns_of_device(d: DeviceView)
    requires
        in_columns(d),
    ensures
        columns(device_line(d)).len() >= 4,
        columns(device_line(d))[0] == d.key,
        columns(device_line(d))[1] == way_name(d.info.conn_type),
        columns(device_line(d))[2] == status_name(d.info.conn_status),
{
    let none = Seq::<char>::empty();
    let way = way_name(d.info.conn_type);
    let status = status_name(d.info.conn_status);
    let name = if d.info.dev_name.len() == 0 {
        "unknown..."@
    } else {
        d.info.dev_name
    };
    let tab = seq!['\t'];
    reveal_strlit("\t\t");
    reveal_strlit("\t");
    reveal_strlit("unknown...");
    names_hold_no_tabulator(d.info.conn_type, d.info.conn_status);
    let cells = seq![d.key, none, way, status];
    assert forall|i: int| 0 <= i < cells.len() implies !(#[trigger] cells[i]).contains('\t') by {
        assert(i == 0 || i == 1 || i == 2 || i == 3);
    }
    text::split_undoes_join(cells, '\t');
    let head = text::joined(cells, tab);
    assert(head =~= d.key + tab + none + tab + way + tab + status) by {
        reveal_with_fuel(text::joined, 5);
        assert(cells.drop_last() =~= seq![d.key, none, way]);
        assert(seq![d.key, none, way].drop_last() =~= seq![d.key, none]);
        assert(seq![d.key, none].drop_last() =~= seq![d.key]);
    }
    assert(device_line(d) =~= head + tab + name);
    text::parts_of_two(head, name, '\t');
    let rest = text::split_parts(name, '\t');
    filled_of_two(cells, rest);
    assert(filled(cells) =~= seq![d.key, way, status]) by {
        reveal_with_fuel(filled, 5);
        assert(cells.drop_last() =~= seq![d.key, none, way]);
        assert(seq![d.key, none, way].drop_last() =~= seq![d.key, none]);
        assert(seq![d.key, none].drop_last() =~= seq![d.key]);
        assert(seq![d.key].drop_last() =~= Seq::<Seq<char>>::empty());
    }
    if d.info.dev_name.len() == 0 {
        something_is_filled(name, 0);
    } else {
        let k = choose|k: int|
            0 <= k < d.info.dev_name.len() && #[trigger] d.info.dev_name[k] != '\t';
        something_is_filled(name, k);
    }
}

/// A development environment is told of every device, one on a line: its key, its way and
/// its status, with a blank between them.
pub proof fn every_device_is_told(devs: Seq<DeviceView>)
    requires
        forall|i: int| 0 <= i < devs.len() ==> in_columns(#[trigger] devs[i]),
    ensures
        ide_lines(device_list(devs, true)) == text::joined(ide_device_lines(devs), "\n"@),
        devs.len() > 0 ==> ide_lines(device_list(devs, true)).len() > 0,
    decreases devs.len(),
{
    if devs.len() > 0 {
        let rest = devs.drop_last();
        let d = devs.last();
        assert(d == devs[devs.len() - 1]);
        assert forall|i: int| 0 <= i < rest.len() implies in_columns(#[trigger] rest[i]) by {
            assert(rest[i] == devs[i]);
        }
        every_device_is_told(rest);
        columns_of_device(d);
        let lines = device_list(devs, true);
        assert(lines.drop_last() =~= device_list(rest, true));
        assert(lines.last() == device_line(d));
        let told = ide_device_lines(devs);
        assert(told.drop_last() =~= ide_device_lines(rest));
        assert(told.last() == ide_line(d));
        let before = ide_lines(device_list(rest, true));
        if rest.len() == 0 {
            assert(before =~= Seq::<char>::empty());
            assert(ide_lines(lines) =~= ide_line(d));
        } else {
            assert(ide_lines(lines) =~= before + "\n"@ + ide_line(d));
        }
    }
}

/// The list of the connected devices holds the key of every device that is connected, and no
/// other key.
pub proof fn connected_are_listed(devs: Seq<DeviceView>, key: Seq<char>)
    ensures
        device_list(devs, false).contains(key) <==> exists|i: int|
            0 <= i < devs.len() && (#[trigger] devs[i]).key == key && devs[i].info.conn_status
                == ConnStatus::Connected,
    decreases devs.len(),
{
    if devs.len() > 0 {
        let rest = devs.drop_last();
        let before = device_list(rest, false);
        let now = device_list(devs, false);
        let d = devs.last();
        assert(d == devs[devs.len() - 1]);
        connected_are_listed(rest, key);
        if now.contains(key) {
            let k = choose|k: int| 0 <= k < now.len() && now[k] == key;
            if k < before.len() {
                assert(before[k] == key);
                let i = choose|i: int|
                    0 <= i < rest.len() && (#[trigger] rest[i]).key == key
                        && rest[i].info.conn_status == ConnStatus::Connected;
                assert(devs[i] == rest[i]);
            }
        }
        if exists|i: int|
            0 <= i < devs.len() && (#[trigger] devs[i]).key == key && devs[i].info.conn_status
                == ConnStatus::Connected {
            let i = choose|i: int|
                0 <= i < devs.len() && (#[trigger] devs[i]).key == key && devs[i].info.conn_status
                    == ConnStatus::Connected;
            if i < rest.len() {
                assert(rest[i] == devs[i]);
                let k = choose|k: int| 0 <= k < before.len() && before[k] == key;
                assert(now[k] == key);
            } else {
                assert(now[now.len() - 1] == key);
            }
        }
    }
}

/// The full list tells of every device, in a line of its own: its key, the way to reach it, its
/// status, and its name or that it has none.
#[verifier::rlimit(40)]
pub proof fn every_device_is_listed(devs: Seq<DeviceView>, i: int)
    requires
        0 <= i < devs.len(),
    ensures
        device_list(devs, true).len() == devs.len(),
        ({
            let d = devs[i];
            device_list(devs, true)[i] == d.key + "\t\t"@ + (match d.info.conn_type {
                ConnectTypeView::Tcp => "TCP"@,
                ConnectTypeView::Usb(_) => "USB"@,
                ConnectTypeView::Uart => "UART"@,
                ConnectTypeView::Bt => "BT"@,
                ConnectTypeView::HostUsb(_) => "HOSTUSB"@,
                ConnectTypeView::Bridge => "BRIDGE"@,
            }) + "\t"@ + (match d.info.conn_status {
                ConnStatus::Connected => "Connected"@,
                ConnStatus::Ready => "Ready"@,
                ConnStatus::Offline => "Offline"@,
                ConnStatus::Unauthorized => "Unauthorized"@,
            }) + "\t"@ + (if d.info.dev_name == Seq::<char>::empty() {
                "unknown..."@
            } else {
                d.info.dev_name
            })
        }),
{
    lines_of_devices(devs);
    assert(devs[i].info.dev_name.len() == 0 <==> devs[i].info.dev_name =~= Seq::<char>::empty());
}

/// A device that has been put under a key as a connected one can be used: it is listed, its key
/// stands for its session, and where no other device is connected `any` stands for it.
pub proof fn connected_can_be_used(devs: Seq<DeviceView>, key: Seq<char>, info: DaemonInfoView)
    requires
        distinct(devs),
        info.conn_status == ConnStatus::Connected,
    ensures
        ({
            let now = with_device(devs, key, info);
            &&& device_list(now, false).contains(key)
            &&& key != "any"@ ==> resolved_key(now, key) == Ok::<Seq<char>, ResolveErrorView>(key)
            &&& key != "any"@ ==> resolved_session(now, key) == Ok::<u32, ResolveErrorView>(
                info.session_id,
            )
            &&& (forall|j: int|
                0 <= j < devs.len() && (#[trigger] devs[j]).info.conn_status
                    == ConnStatus::Connected ==> devs[j].key == key) ==> {
                &&& resolved_key(now, "any"@) == Ok::<Seq<char>, ResolveErrorView>(key)
                &&& resolved_session(now, "any"@) == Ok::<u32, ResolveErrorView>(info.session_id)
                &&& device_list(now, false) == seq![key]
                &&& default_key(now) == Some(key)
            }
        }),
{
    let now = with_device(devs, key, info);
    put_is_found(devs, key, info, key);
    place_is_first(devs, key);
    place_is_first(now, key);
    let p = place_of(now, key);
    assert(p < now.len() && now[p].key == key && now[p].info == info);
    connected_are_listed(now, key);
    if forall|j: int|
        0 <= j < devs.len() && (#[trigger] devs[j]).info.conn_status == ConnStatus::Connected
            ==> devs[j].key == key {
        assert forall|j: int| 0 <= j < now.len() && j != p implies (
        #[trigger] now[j]).info.conn_status != ConnStatus::Connected by {
            assert(now[j].key != now[p].key);
            if place_of(devs, key) < devs.len() {
                assert(now[j] == devs[j]);
            } else {
                assert(now[j] == devs[j]);
            }
        }
        only_device_is_chosen(now, p);
        one_is_listed(now, p);
        first_connected_is_first(now);
    }
}

/// Where no device is connected, none is listed.
proof fn none_is_listed(devs: Seq<DeviceView>)
    requires
        forall|j: int|
            0 <= j < devs.len() ==> (#[trigger] devs[j]).info.conn_status != ConnStatus::Connected,
    ensures
        device_list(devs, false) == Seq::<Seq<char>>::empty(),
    decreases devs.len(),
{
    if devs.len() > 0 {
        assert(devs.last() == devs[devs.len() - 1]);
        none_is_listed(devs.drop_last());
    }
}

/// Where one device is connected, its key alone is listed.
proof fn one_is_listed(devs: Seq<DeviceView>, i: int)
    requires
        0 <= i < devs.len(),
        devs[i].info.conn_status == ConnStatus::Connected,
        forall|j: int|
            0 <= j < devs.len() && j != i ==> (#[trigger] devs[j]).info.conn_status
                != ConnStatus::Connected,
    ensures
        device_list(devs, false) == seq![devs[i].key],
    decreases devs.len(),
{
    assert(devs.last() == devs[devs.len() - 1]);
    if i == devs.len() - 1 {
        none_is_listed(devs.drop_last());
        assert(Seq::<Seq<char>>::empty().push(devs[i].key) =~= seq![devs[i].key]);
    } else {
        one_is_listed(devs.drop_last(), i);
    }
}

/// A device that is not connected is neither listed among the connected ones nor chosen.
pub proof fn unconnected_is_not_chosen(devs: Seq<DeviceView>, key: Seq<char>, info: DaemonInfoView)
    requires
        distinct(devs),
        info.conn_status != ConnStatus::Connected,
    ensures
        ({
            let now = with_device(devs, key, info);
            &&& !device_list(now, false).contains(key)
            &&& resolved_key(now, "any"@) != Ok::<Seq<char>, ResolveErrorView>(key)
            &&& default_key(now) != Some(key)
        }),
{
    let now = with_device(devs, key, info);
    put_is_found(devs, key, info, key);
    place_is_first(devs, key);
    place_is_first(now, key);
    connected_are_listed(now, key);
    first_connected_is_first(now);
    let found = connected(now);
    if found.len() == 1 && found[0].key == key {
        connected_are_connected(now, found[0]);
        assert(found.contains(found[0]));
        let j = choose|j: int| 0 <= j < now.len() && now[j] == found[0];
        assert(now[j].key == key);
        assert(now[place_of(now, key)].info == info);
    }
    if default_key(now) == Some(key) {
        let j = first_connected(now);
        assert(now[j].key == key);
        assert(now[place_of(now, key)].info == info);
    }
}

/// A device that has been removed is listed no more, is not chosen, and its key stands for no
/// session.
pub proof fn removed_is_not_chosen(devs: Seq<DeviceView>, key: Seq<char>)
    requires
        distinct(devs),
    ensures
        ({
            let now = without_device(devs, key);
            &&& !device_list(now, false).contains(key)
            &&& resolved_key(now, "any"@) != Ok::<Seq<char>, ResolveErrorView>(key)
            &&& key != "any"@ ==> resolved_session(now, key) == Err::<u32, ResolveErrorView>(
                ResolveErrorView::NotConnected(key),
            )
            &&& forall|i: int| 0 <= i < now.len() ==> (#[trigger] now[i]).key != key
        }),
{
    let now = without_device(devs, key);
    removed_is_gone(devs, key, key);
    place_is_first(now, key);
    assert forall|i: int| 0 <= i < now.len() implies (#[trigger] now[i]).key != key by {
        if now[i].key == key {
            place_is(now, key, i);
        }
    }
    connected_are_listed(now, key);
    let found = connected(now);
    if found.len() == 1 && found[0].key == key {
        connected_are_connected(now, found[0]);
        assert(found.contains(found[0]));
        let j = choose|j: int| 0 <= j < now.len() && now[j] == found[0];
        assert(now[j].key == key);
    }
}

/// The session of a key is that of the device under it; `any` stands for the first that is
/// connected.
pub proof fn keys_stand_for_sessions(devs: Seq<DeviceView>, i: int)
    requires
        distinct(devs),
        0 <= i < devs.len(),
    ensures
        devs[i].key != "any"@ ==> session_of(devs, devs[i].key) == Some(devs[i].info.session_id),
        devs[i].key != "any"@ ==> resolved_session(devs, devs[i].key) == Ok::<
            u32,
            ResolveErrorView,
        >(devs[i].info.session_id),
        devs[i].info.conn_status == ConnStatus::Connected && (forall|j: int|
            0 <= j < i ==> (#[trigger] devs[j]).info.conn_status != ConnStatus::Connected)
            ==> session_of(devs, "any"@) == Some(devs[i].info.session_id) && default_key(devs)
            == Some(devs[i].key),
        (forall|j: int|
            0 <= j < i ==> (#[trigger] devs[j]).info.session_id != devs[i].info.session_id)
            ==> place_of_session(devs, devs[i].info.session_id) == i,
{
    place_is(devs, devs[i].key, i);
    first_connected_is_first(devs);
    place_of_session_is_first(devs, devs[i].info.session_id);
}

} // verus!
