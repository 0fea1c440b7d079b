//! Device records and their projection into the external smart-home schema.
//!
//! A `Device` is the canonical stored record of one controllable entity.
//! Its `last_state` is a structured value whose shape depends on the kind:
//! a plain on/off flag, a zone snapshot, an opaque status payload, or a
//! television status.  The false on/off flag is the sentinel of a record
//! that was never polled, and the `default` record as a whole is the
//! sentinel for "not found".

use vstd::prelude::*;

verus! {

/// Every kind of device the catalog can hold.  Zones of a multi-zone host
/// are synthesized as `SPRINKLER` devices and never stored.
#[derive(Clone, Copy, PartialEq, Eq, Structural, Debug)]
pub enum DeviceType {
    LIGHT,
    SWITCH,
    GARAGE,
    SPRINKLER,
    ROUTER,
    SqlSprinklerHost,
    TV,
    BATTERY,
}

/// The physical controller family, used for schema projection and for
/// deciding whether a device has a reachable network endpoint.
#[derive(Clone, Copy, PartialEq, Eq, Structural, Debug)]
pub enum HardwareType {
    ARDUINO,
    PI,
    OTHER,
    LG,
}

/// Fields of a television status report; a field that the report did not
/// carry is `None` and leaves the stored value untouched when merged.
#[derive(Clone, Copy, Debug)]
#[verifier::ext_equal]
pub struct TvState {
    pub on: Option<bool>,
    pub volume: Option<u8>,
}

impl DeepView for TvState {
    type V = TvState;

    open spec fn deep_view(&self) -> TvState {
        *self
    }
}

/// The live state of a device.  `Bool(false)` is the never-polled sentinel.
#[derive(Debug)]
pub enum LiveState {
    /// Plain on/off state.
    Bool(bool),
    /// Snapshot of one zone of a multi-zone host.
    Zone { on: bool, id: i8, index: i8 },
    /// Opaque status payload, kept verbatim.
    Raw(String),
    /// Television status.
    Tv(TvState),
}

/// Mathematical value of a `LiveState`.
pub ghost enum LiveStateV {
    Bool(bool),
    Zone { on: bool, id: i8, index: i8 },
    Raw(Seq<char>),
    Tv(TvState),
}

impl View for LiveState {
    type V = LiveStateV;

    open spec fn view(&self) -> LiveStateV {
        match self {
            LiveState::Bool(b) => LiveStateV::Bool(*b),
            LiveState::Zone { on, id, index } => LiveStateV::Zone {
                on: *on,
                id: *id,
                index: *index,
            },
            LiveState::Raw(s) => LiveStateV::Raw(s@),
            LiveState::Tv(t) => LiveStateV::Tv(*t),
        }
    }
}

/// A record of one controllable device.
#[derive(Debug)]
pub struct Device {
    /// The network address of the device (used for live polling).
    pub ip: String,
    /// The id of the device.
    pub guid: String,
    /// What kind the device is.
    pub kind: DeviceType,
    /// The hardware used on the device.
    pub hardware: HardwareType,
    /// The last observed state of the device.
    pub last_state: LiveState,
    /// The software version running on the device.
    pub sw_version: String,
    /// The user this device belongs to.
    pub useruuid: String,
    /// The display name of the device.
    pub name: String,
    /// Alternative names for the device.
    pub nicknames: Vec<String>,
}

/// Mathematical value of a `Device`.
pub ghost struct DeviceV {
    pub ip: Seq<char>,
    pub guid: Seq<char>,
    pub kind: DeviceType,
    pub hardware: HardwareType,
    pub last_state: LiveStateV,
    pub sw_version: Seq<char>,
    pub useruuid: Seq<char>,
    pub name: Seq<char>,
    pub nicknames: Seq<Seq<char>>,
}

impl View for Device {
    type V = DeviceV;

    open spec fn view(&self) -> DeviceV {
        DeviceV {
            ip: self.ip@,
            guid: self.guid@,
            kind: self.kind,
            hardware: self.hardware,
            last_state: self.last_state@,
            sw_version: self.sw_version@,
            useruuid: self.useruuid@,
            name: self.name@,
            nicknames: Seq::new(self.nicknames@.len(), |i: int| self.nicknames@[i]@),
        }
    }
}

impl DeepView for Device {
    type V = DeviceV;

    open spec fn deep_view(&self) -> DeviceV {
        self@
    }
}

impl Clone for LiveState {
    fn clone(&self) -> (r: Self)
        ensures
            r@ == self@,
    {
        match self {
            LiveState::Bool(b) => LiveState::Bool(*b),
            LiveState::Zone { on, id, index } => LiveState::Zone {
                on: *on,
                id: *id,
                index: *index,
            },
            LiveState::Raw(s) => LiveState::Raw(s.clone()),
            LiveState::Tv(t) => LiveState::Tv(*t),
        }
    }
}

/// Element-wise copy of a list of names.
pub(crate) fn clone_names(v: &Vec<String>) -> (r: Vec<String>)
    ensures
        r@.len() == v@.len(),
        forall|i: int| 0 <= i < v@.len() ==> #[trigger] r@[i]@ == v@[i]@,
{
    let mut r: Vec<String> = Vec::new();
    let mut i: usize = 0;
    while i < v.len()
        invariant
            i <= v@.len(),
            r@.len() == i,
            forall|j: int| 0 <= j < i ==> #[trigger] r@[j]@ == v@[j]@,
        decreases v@.len() - i,
    {
        r.push(v[i].clone());
        i = i + 1;
    }
    r
}

impl Clone for Device {
    /// Creates a copy of this device with an equal value.
    fn clone(&self) -> (r: Self)
        ensures
            r@ == self@,
    {
        let r = Device {
            ip: self.ip.clone(),
            guid: self.guid.clone(),
            kind: self.kind,
            hardware: self.hardware,
            last_state: self.last_state.clone(),
            sw_version: self.sw_version.clone(),
            useruuid: self.useruuid.clone(),
            name: self.name.clone(),
            nicknames: clone_names(&self.nicknames),
        };
        proof {
            assert(r@.nicknames =~= self@.nicknames);
        }
        r
    }
}

fn tv_state_eq(a: &TvState, b: &TvState) -> (r: bool)
    ensures
        r == (a == b),
{
    let on_eq = match (a.on, b.on) {
        (None, None) => true,
        (Some(x), Some(y)) => x == y,
        _ => false,
    };
    let volume_eq = match (a.volume, b.volume) {
        (None, None) => true,
        (Some(x), Some(y)) => x == y,
        _ => false,
    };
    proof {
        if a.on == b.on && a.volume == b.volume {
            assert(*a =~= *b);
        }
    }
    on_eq && volume_eq
}

fn live_state_eq(a: &LiveState, b: &LiveState) -> (r: bool)
    ensures
        r == (a@ == b@),
{
    match a {
        LiveState::Bool(x) => match b {
            LiveState::Bool(y) => *x == *y,
            _ => false,
        },
        LiveState::Zone { on: x1, id: x2, index: x3 } => match b {
            LiveState::Zone { on: y1, id: y2, index: y3 } => *x1 == *y1 && *x2 == *y2 && *x3
                == *y3,
            _ => false,
        },
        LiveState::Raw(x) => match b {
            LiveState::Raw(y) => *x == *y,
            _ => false,
        },
        LiveState::Tv(x) => match b {
            LiveState::Tv(y) => tv_state_eq(x, y),
            _ => false,
        },
    }
}

fn names_eq(a: &Vec<String>, b: &Vec<String>) -> (r: bool)
    ensures
        r == (Seq::new(a@.len(), |i: int| a@[i]@) =~= Seq::new(b@.len(), |i: int| b@[i]@)),
{
    if a.len() != b.len() {
        return false;
    }
    let mut i: usize = 0;
    while i < a.len()
        invariant
            a@.len() == b@.len(),
            i <= a@.len(),
            forall|j: int| 0 <= j < i ==> #[trigger] a@[j]@ == b@[j]@,
        decreases a@.len() - i,
    {
        if !(a[i] == b[i]) {
            proof {
                assert(Seq::new(a@.len(), |k: int| a@[k]@)[i as int] != Seq::new(
                    b@.len(),
                    |k: int| b@[k]@,
                )[i as int]);
            }
            return false;
        }
        i = i + 1;
    }
    true
}

impl PartialEq for Device {
    /// Structural equality over every field: two records are the same
    /// device record exactly when every stored attribute agrees.
    fn eq(&self, other: &Device) -> (r: bool) {
        self.ip == other.ip && self.guid == other.guid && self.kind == other.kind
            && self.hardware == other.hardware && live_state_eq(&self.last_state, &other.last_state)
            && self.sw_version == other.sw_version && self.useruuid == other.useruuid
            && self.name == other.name && names_eq(&self.nicknames, &other.nicknames)
    }
}

impl vstd::std_specs::cmp::PartialEqSpecImpl for Device {
    open spec fn obeys_eq_spec() -> bool {
        true
    }

    open spec fn eq_spec(&self, other: &Device) -> bool {
        self@ == other@
    }
}

impl Eq for Device {

}

/// The record `resolve` hands back for an id the store does not hold: a
/// plain switch with every field empty or false.  Callers recognise "not
/// found" by full structural equality with this record.
pub open spec fn spec_default_device() -> DeviceV {
    DeviceV {
        ip: Seq::<char>::empty(),
        guid: Seq::<char>::empty(),
        kind: DeviceType::SWITCH,
        hardware: HardwareType::OTHER,
        last_state: LiveStateV::Bool(false),
        sw_version: "0"@,
        useruuid: Seq::<char>::empty(),
        name: Seq::<char>::empty(),
        nicknames: seq![Seq::<char>::empty()],
    }
}

impl Default for Device {
    /// The "not found" sentinel record.
    fn default() -> (r: Device)
        ensures
            r@ == spec_default_device(),
    {
        let mut nicknames: Vec<String> = Vec::new();
        nicknames.push(String::new());
        let r = Device {
            ip: String::new(),
            guid: String::new(),
            kind: DeviceType::SWITCH,
            hardware: HardwareType::OTHER,
            last_state: LiveState::Bool(false),
            sw_version: String::from_str("0"),
            useruuid: String::new(),
            name: String::new(),
            nicknames,
        };
        proof {
            assert(r@.nicknames =~= spec_default_device().nicknames);
        }
        r
    }
}

/// The name a device is shown under: its display name, or its id when the
/// display name is empty.
pub open spec fn spec_display_name(d: DeviceV) -> Seq<char> {
    if d.name.len() == 0 {
        d.guid
    } else {
        d.name
    }
}

/// External type tag of a device kind.
pub open spec fn spec_google_type(k: DeviceType) -> Seq<char> {
    match k {
        DeviceType::LIGHT => "action.devices.types.LIGHT"@,
        DeviceType::SWITCH => "action.devices.types.SWITCH"@,
        DeviceType::GARAGE => "action.devices.types.GARAGE"@,
        DeviceType::SPRINKLER => "action.devices.types.SPRINKLER"@,
        DeviceType::ROUTER => "action.devices.types.ROUTER"@,
        DeviceType::SqlSprinklerHost => "action.devices.types.SWITCH"@,
        DeviceType::TV => "action.devices.types.TV"@,
        DeviceType::BATTERY => "action.devices.types.SWITCH"@,
    }
}

/// External trait list of a device kind.
pub open spec fn spec_google_traits(k: DeviceType) -> Seq<Seq<char>> {
    match k {
        DeviceType::GARAGE => seq!["action.devices.traits.OpenClose"@],
        DeviceType::ROUTER => seq!["action.devices.traits.Reboot"@],
        DeviceType::TV => seq!["action.devices.traits.OnOff"@, "action.devices.traits.Volume"@],
        _ => seq!["action.devices.traits.OnOff"@],
    }
}

/// External name of a hardware family.
pub open spec fn spec_google_hardware(h: HardwareType) -> Seq<char> {
    match h {
        HardwareType::ARDUINO => "Arduino"@,
        HardwareType::PI => "Raspberry Pi"@,
        HardwareType::OTHER => "Other"@,
        HardwareType::LG => "LG"@,
    }
}

/// Attribute object of a projected device, one shape per trait family.
#[derive(Clone, Copy, PartialEq, Eq, Structural, Debug)]
pub enum Attributes {
    /// Doors and covers that only know fully open and fully closed.
    OpenClose { discrete_only_open_close: bool },
    /// Anything that can be switched on and off and queried for it.
    OnOff { command_only_on_off: bool, query_only_on_off: bool },
    /// Televisions: on/off plus a volume range.
    Tv {
        command_only_on_off: bool,
        query_only_on_off: bool,
        volume_max_level: u8,
        volume_can_mute_and_unmute: bool,
        command_only_volume: bool,
        volume_default_percentage: u8,
    },
}

/// The volume scale a projected television advertises.
pub const TV_VOLUME_MAX_LEVEL: u8 = 100;

/// Attribute object of a device kind; a pure function of the kind.
pub open spec fn spec_attributes(k: DeviceType) -> Attributes {
    match k {
        DeviceType::GARAGE => Attributes::OpenClose { discrete_only_open_close: true },
        DeviceType::TV => Attributes::Tv {
            command_only_on_off: false,
            query_only_on_off: false,
            volume_max_level: TV_VOLUME_MAX_LEVEL,
            volume_can_mute_and_unmute: true,
            command_only_volume: false,
            volume_default_percentage: 10,
        },
        _ => Attributes::OnOff { command_only_on_off: false, query_only_on_off: false },
    }
}

/// Traits of a television.
fn tv_traits() -> (r: Vec<&'static str>)
    ensures
        Seq::new(r@.len(), |i: int| r@[i]@) == spec_google_traits(DeviceType::TV),
{
    let r = vec!["action.devices.traits.OnOff", "action.devices.traits.Volume"];
    proof {
        assert(Seq::new(r@.len(), |i: int| r@[i]@) =~= spec_google_traits(DeviceType::TV));
    }
    r
}

/// Traits of things that open and close.
fn open_close_traits() -> (r: Vec<&'static str>)
    ensures
        Seq::new(r@.len(), |i: int| r@[i]@) == spec_google_traits(DeviceType::GARAGE),
{
    let r = vec!["action.devices.traits.OpenClose"];
    proof {
        assert(Seq::new(r@.len(), |i: int| r@[i]@) =~= spec_google_traits(DeviceType::GARAGE));
    }
    r
}

/// Traits of things that turn on and off.
fn on_off_traits() -> (r: Vec<&'static str>)
    ensures
        Seq::new(r@.len(), |i: int| r@[i]@) == spec_google_traits(DeviceType::SWITCH),
{
    let r = vec!["action.devices.traits.OnOff"];
    proof {
        assert(Seq::new(r@.len(), |i: int| r@[i]@) =~= spec_google_traits(DeviceType::SWITCH));
    }
    r
}

/// Traits of things that can be rebooted.
fn reboot_traits() -> (r: Vec<&'static str>)
    ensures
        Seq::new(r@.len(), |i: int| r@[i]@) == spec_google_traits(DeviceType::ROUTER),
{
    let r = vec!["action.devices.traits.Reboot"];
    proof {
        assert(Seq::new(r@.len(), |i: int| r@[i]@) =~= spec_google_traits(DeviceType::ROUTER));
    }
    r
}

/// Attributes for garage doors.
fn garage_attribute() -> (r: Attributes)
    ensures
        r == spec_attributes(DeviceType::GARAGE),
{
    Attributes::OpenClose { discrete_only_open_close: true }
}

/// Attributes for on/off devices (switches, outlets, some lights).
fn on_off_attribute() -> (r: Attributes)
    ensures
        r == spec_attributes(DeviceType::SWITCH),
{
    Attributes::OnOff { command_only_on_off: false, query_only_on_off: false }
}

/// Attributes for televisions.
fn tv_attribute() -> (r: Attributes)
    ensures
        r == spec_attributes(DeviceType::TV),
{
    Attributes::Tv {
        command_only_on_off: false,
        query_only_on_off: false,
        volume_max_level: TV_VOLUME_MAX_LEVEL,
        volume_can_mute_and_unmute: true,
        command_only_volume: false,
        volume_default_percentage: 10,
    }
}

/// URL of the device's own control-plane endpoint.  Only hardware with an
/// embedded web server (the Arduino family) has one.
pub open spec fn spec_api_url(d: DeviceV, endpoint: Seq<char>) -> Seq<char> {
    if d.hardware == HardwareType::ARDUINO {
        "http://"@ + d.ip + "/"@ + endpoint
    } else {
        Seq::<char>::empty()
    }
}

/// URL used to change a device's state: multi-zone hosts go through the
/// central sprinkler service, everything else through its own endpoint.
pub open spec fn spec_api_url_with_param(
    d: DeviceV,
    endpoint: Seq<char>,
    param: Seq<char>,
) -> Seq<char> {
    if d.kind == DeviceType::SqlSprinklerHost {
        "https://api.peasenet.com/sprinkler/systems/"@ + d.guid + "/state"@
    } else {
        spec_api_url(d, endpoint) + "?param="@ + param
    }
}

impl Device {
    /// The API URL of the device, with the endpoint appended.
    fn get_api_url(&self, endpoint: String) -> (r: String)
        ensures
            r@ == spec_api_url(self@, endpoint@),
    {
        match self.hardware {
            HardwareType::ARDUINO => {
                let mut s = String::from_str("http://");
                s.append(self.ip.as_str());
                s.append("/");
                s.append(endpoint.as_str());
                proof {
                    assert(s@ =~= spec_api_url(self@, endpoint@));
                }
                s
            },
            _ => String::new(),
        }
    }

    /// A URL that sets this device's state to `param`.
    pub fn get_api_url_with_param(&self, endpoint: String, param: String) -> (r: String)
        ensures
            r@ == spec_api_url_with_param(self@, endpoint@, param@),
    {
        match self.kind {
            DeviceType::SqlSprinklerHost => {
                let mut s = String::from_str("https://api.peasenet.com/sprinkler/systems/");
                s.append(self.guid.as_str());
                s.append("/state");
                proof {
                    assert(s@ =~= spec_api_url_with_param(self@, endpoint@, param@));
                }
                s
            },
            _ => {
                let mut s = self.get_api_url(endpoint);
                s.append("?param=");
                s.append(param.as_str());
                proof {
                    assert(s@ =~= spec_api_url_with_param(self@, endpoint@, param@));
                }
                s
            },
        }
    }

    /// The attributes of this device in the external schema.
    pub fn get_attributes(&self) -> (r: Attributes)
        ensures
            r == spec_attributes(self.kind),
    {
        match self.kind {
            DeviceType::GARAGE => garage_attribute(),
            DeviceType::TV => tv_attribute(),
            _ => on_off_attribute(),
        }
    }

    /// The external type tag of this device.
    pub fn get_google_device_type(&self) -> (r: &str)
        ensures
            r@ == spec_google_type(self.kind),
    {
        match self.kind {
            DeviceType::LIGHT => "action.devices.types.LIGHT",
            DeviceType::SWITCH | DeviceType::SqlSprinklerHost | DeviceType::BATTERY => "action.devices.types.SWITCH",
            DeviceType::GARAGE => "action.devices.types.GARAGE",
            DeviceType::SPRINKLER => "action.devices.types.SPRINKLER",
            DeviceType::ROUTER => "action.devices.types.ROUTER",
            DeviceType::TV => "action.devices.types.TV",
        }
    }

    /// The external trait list of this device.
    pub fn get_google_device_traits(&self) -> (r: Vec<&str>)
        ensures
            Seq::new(r@.len(), |i: int| r@[i]@) == spec_google_traits(self.kind),
    {
        match self.kind {
            DeviceType::GARAGE => open_close_traits(),
            DeviceType::ROUTER => reboot_traits(),
            DeviceType::TV => tv_traits(),
            _ => {
                let r = on_off_traits();
                proof {
                    assert(Seq::new(r@.len(), |i: int| r@[i]@) =~= spec_google_traits(self.kind));
                }
                r
            },
        }
    }

    /// The external name of this device's hardware family.
    pub fn get_google_device_hardware(&self) -> (r: &str)
        ensures
            r@ == spec_google_hardware(self.hardware),
    {
        match self.hardware {
            HardwareType::ARDUINO => "Arduino",
            HardwareType::PI => "Raspberry Pi",
            HardwareType::OTHER => "Other",
            HardwareType::LG => "LG",
        }
    }

    /// Writes this record to the store under its own id, replacing what
    /// was there; reports whether the write succeeded (an in-process store
    /// always succeeds).
    pub fn database_update(&self, store: &mut crate::store::Store) -> (r: bool)
        requires
            old(store).wf(),
        ensures
            final(store).wf(),
            final(store)@.devices == old(store)@.devices.insert(self.guid@, self@),
            final(store)@.users == old(store)@.users,
            r == true,
    {
        store.set(&self.guid, self);
        true
    }

    /// Whether this device answers a liveness probe at its network address.
    pub fn is_online(&self, cp: &crate::controlplane::ControlPlane) -> (r: bool)
        requires
            cp.wf(),
        ensures
            r == crate::controlplane::spec_probe(cp@, self.ip@),
    {
        cp.probe(&self.ip)
    }

    /// The name this device is shown under: `name`, or the id when `name`
    /// is empty.
    pub fn get_name(&self) -> (r: &String)
        ensures
            r@ == spec_display_name(self@),
    {
        if self.name.as_str().is_empty() {
            return &self.guid;
        }
        &self.name
    }
}

/// Chars-wise equality of two string slices.
fn str_eq(a: &str, b: &str) -> (r: bool)
    ensures
        r == (a@ == b@),
{
    let n = a.unicode_len();
    if n != b.unicode_len() {
        proof {
            assert(a@ != b@);
        }
        return false;
    }
    let mut i: usize = 0;
    while i < n
        invariant
            n == a@.len(),
            n == b@.len(),
            i <= n,
            forall|j: int| 0 <= j < i ==> a@[j] == b@[j],
        decreases n - i,
    {
        if a.get_char(i) != b.get_char(i) {
            return false;
        }
        i = i + 1;
    }
    proof {
        assert(a@ =~= b@);
    }
    true
}

/// The device kind a stored tag names, when it names one.
pub open spec fn spec_device_type_of_tag(s: Seq<char>) -> Result<DeviceType, ()> {
    if s == "LIGHT"@ {
        Ok(DeviceType::LIGHT)
    } else if s == "SWITCH"@ {
        Ok(DeviceType::SWITCH)
    } else if s == "GARAGE"@ {
        Ok(DeviceType::GARAGE)
    } else if s == "SPRINKLER"@ {
        Ok(DeviceType::SPRINKLER)
    } else if s == "ROUTER"@ {
        Ok(DeviceType::ROUTER)
    } else if s == "SQLSPRINKLER_HOST"@ {
        Ok(DeviceType::SqlSprinklerHost)
    } else if s == "TV"@ {
        Ok(DeviceType::TV)
    } else if s == "BATTERY"@ {
        Ok(DeviceType::BATTERY)
    } else {
        Err(())
    }
}

/// Reads a device kind from its stored tag.
pub fn device_type_from_str(s: &str) -> (r: Result<DeviceType, ()>)
    ensures
        r == spec_device_type_of_tag(s@),
{
    if str_eq(s, "LIGHT") {
        Ok(DeviceType::LIGHT)
    } else if str_eq(s, "SWITCH") {
        Ok(DeviceType::SWITCH)
    } else if str_eq(s, "GARAGE") {
        Ok(DeviceType::GARAGE)
    } else if str_eq(s, "SPRINKLER") {
        Ok(DeviceType::SPRINKLER)
    } else if str_eq(s, "ROUTER") {
        Ok(DeviceType::ROUTER)
    } else if str_eq(s, "SQLSPRINKLER_HOST") {
        Ok(DeviceType::SqlSprinklerHost)
    } else if str_eq(s, "TV") {
        Ok(DeviceType::TV)
    } else if str_eq(s, "BATTERY") {
        Ok(DeviceType::BATTERY)
    } else {
        Err(())
    }
}

/// The hardware family a stored tag names, when it names one.
pub open spec fn spec_hardware_type_of_tag(s: Seq<char>) -> Result<HardwareType, ()> {
    if s == "ARDUINO"@ {
        Ok(HardwareType::ARDUINO)
    } else if s == "PI"@ {
        Ok(HardwareType::PI)
    } else if s == "OTHER"@ {
        Ok(HardwareType::OTHER)
    } else if s == "LG"@ {
        Ok(HardwareType::LG)
    } else {
        Err(())
    }
}

/// Reads a hardware family from its stored tag.
pub fn hardware_type_from_str(s: &str) -> (r: Result<HardwareType, ()>)
    ensures
        r == spec_hardware_type_of_tag(s@),
{
    if str_eq(s, "ARDUINO") {
        Ok(HardwareType::ARDUINO)
    } else if str_eq(s, "PI") {
        Ok(HardwareType::PI)
    } else if str_eq(s, "OTHER") {
        Ok(HardwareType::OTHER)
    } else if str_eq(s, "LG") {
        Ok(HardwareType::LG)
    } else {
        Err(())
    }
}

impl core::str::FromStr for DeviceType {
    type Err = ();

    fn from_str(s: &str) -> Result<DeviceType, ()> {
        device_type_from_str(s)
    }
}

impl core::str::FromStr for HardwareType {
    type Err = ();

    fn from_str(s: &str) -> Result<HardwareType, ()> {
        hardware_type_from_str(s)
    }
}

/// What resolving a stored (non-composite) id does: an absent id resolves
/// to the default sentinel and touches nothing; a present record is
/// refreshed by its kind's strategy and, when the strategy says so, the
/// refreshed record is persisted under its own id.
pub open spec fn spec_resolve_stored(
    m: Map<Seq<char>, DeviceV>,
    cp: crate::controlplane::CpV,
    id: Seq<char>,
) -> (Result<DeviceV, crate::refresh::ResolveError>, Map<Seq<char>, DeviceV>) {
    if !m.contains_key(id) {
        (Ok(spec_default_device()), m)
    } else {
        match crate::refresh::spec_refresh(m[id], cp) {
            Ok(r) => (
                Ok(r.device),
                if r.persist {
                    m.insert(r.device.guid, r.device)
                } else {
                    m
                },
            ),
            Err(e) => (Err(e), m),
        }
    }
}

/// Resolves an id that is not a composite zone id: store read, refresh,
/// write-back when the kind's strategy asks for it.
pub(crate) fn resolve_stored(
    id: &String,
    store: &mut crate::store::Store,
    cp: &crate::controlplane::ControlPlane,
) -> (r: Result<Device, crate::refresh::ResolveError>)
    requires
        old(store).wf(),
        cp.wf(),
    ensures
        final(store).wf(),
        final(store)@.users == old(store)@.users,
        ({
            let rm = spec_resolve_stored(old(store)@.devices, cp@, id@);
            final(store)@.devices == rm.1 && match (r, rm.0) {
                (Ok(d), Ok(dv)) => d@ == dv,
                (Err(e), Err(e2)) => e == e2,
                _ => false,
            }
        }),
{
    match store.get(id) {
        None => Ok(Device::default()),
        Some(dev) => match crate::refresh::refresh_device(dev, cp) {
            Ok((d2, persist)) => {
                if persist {
                    d2.database_update(store);
                }
                Ok(d2)
            },
            Err(e) => Err(e),
        },
    }
}

/// What resolving any id does: a composite zone id is answered by zone
/// lookup (which can only yield a device or the sentinel, never an error),
/// any other id by the stored-record path.
pub open spec fn spec_resolve(
    m: Map<Seq<char>, DeviceV>,
    cp: crate::controlplane::CpV,
    id: Seq<char>,
) -> (Result<DeviceV, crate::refresh::ResolveError>, Map<Seq<char>, DeviceV>) {
    if crate::ident::spec_is_zone_id(id) {
        let dm = crate::sqlsprinkler::spec_get_zone(m, cp, id);
        (Ok(dm.0), dm.1)
    } else {
        spec_resolve_stored(m, cp, id)
    }
}

/// Resolves one device id: classifies it, loads or synthesizes the record,
/// refreshes its live state by its kind's strategy, persists the refresh
/// where the strategy asks for it, and returns the record.  An id the store
/// does not hold resolves to the default sentinel record, not an error.
pub fn get_device_from_guid(
    guid: &String,
    store: &mut crate::store::Store,
    cp: &crate::controlplane::ControlPlane,
) -> (r: Result<Device, crate::refresh::ResolveError>)
    requires
        old(store).wf(),
        cp.wf(),
    ensures
        final(store).wf(),
        final(store)@.users == old(store)@.users,
        ({
            let rm = spec_resolve(old(store)@.devices, cp@, guid@);
            final(store)@.devices == rm.1 && match (r, rm.0) {
                (Ok(d), Ok(dv)) => d@ == dv,
                (Err(e), Err(e2)) => e == e2,
                _ => false,
            }
        }),
{
    if crate::ident::check_if_zone(guid) {
        return Ok(crate::sqlsprinkler::get_zone(guid, store, cp));
    }
    resolve_stored(guid, store, cp)
}

/// Law: resolving an id that has no composite shape and is absent from the
/// store yields exactly the default sentinel record and writes nothing.
pub proof fn lemma_resolve_absent(
    m: Map<Seq<char>, DeviceV>,
    cp: crate::controlplane::CpV,
    id: Seq<char>,
)
    requires
        !crate::ident::spec_is_zone_id(id),
        !m.contains_key(id),
    ensures
        spec_resolve(m, cp, id) == (
            Ok::<DeviceV, crate::refresh::ResolveError>(spec_default_device()),
            m,
        ),
{
}

/// Law: resolving a stored multi-zone host whose liveness probe fails
/// yields the record with the false live-state sentinel and writes nothing.
pub proof fn lemma_resolve_host_unreachable(
    m: Map<Seq<char>, DeviceV>,
    cp: crate::controlplane::CpV,
    id: Seq<char>,
)
    requires
        !crate::ident::spec_is_zone_id(id),
        m.contains_key(id),
        m[id].kind == DeviceType::SqlSprinklerHost,
        !crate::controlplane::spec_probe(cp, m[id].ip),
    ensures
        spec_resolve(m, cp, id) == (
            Ok::<DeviceV, crate::refresh::ResolveError>(
                DeviceV { last_state: LiveStateV::Bool(false), ..m[id] },
            ),
            m,
        ),
{
}

/// What the aggregator makes of one resolved id: a television is refreshed
/// once more; a reachable multi-zone host is expanded, its zone devices
/// coming before the host itself; an unreachable host is kept, degraded to
/// the false sentinel by its refresh; everything else is passed through.
pub open spec fn spec_process_one(
    m: Map<Seq<char>, DeviceV>,
    cp: crate::controlplane::CpV,
    id: Seq<char>,
) -> (Result<Seq<DeviceV>, crate::refresh::ResolveError>, Map<Seq<char>, DeviceV>) {
    let rm = spec_resolve(m, cp, id);
    match rm.0 {
        Err(e) => (Err(e), rm.1),
        Ok(d) => match d.kind {
            DeviceType::TV => {
                let dm = crate::tv::spec_parse_tv(rm.1, cp, d);
                (Ok(seq![dm.0]), dm.1)
            },
            DeviceType::SqlSprinklerHost => {
                if crate::controlplane::spec_probe(cp, d.ip) {
                    match crate::sqlsprinkler::spec_expand_host(d, cp) {
                        Ok(zds) => (Ok(zds + seq![d]), rm.1),
                        Err(e) => (Err(e), rm.1),
                    }
                } else {
                    (Ok(seq![d]), rm.1)
                }
            },
            _ => (Ok(seq![d]), rm.1),
        },
    }
}

/// What resolving a whole id list does, left to right, the store threading
/// through; the first hard failure stops the list.
pub open spec fn spec_list_ids(
    m: Map<Seq<char>, DeviceV>,
    cp: crate::controlplane::CpV,
    ids: Seq<Seq<char>>,
) -> (Result<Seq<DeviceV>, crate::refresh::ResolveError>, Map<Seq<char>, DeviceV>)
    decreases ids.len(),
{
    if ids.len() == 0 {
        (Ok(Seq::<DeviceV>::empty()), m)
    } else {
        let rm = spec_process_one(m, cp, ids[0]);
        match rm.0 {
            Err(e) => (Err(e), rm.1),
            Ok(ds) => {
                let rest = spec_list_ids(rm.1, cp, ids.drop_first());
                match rest.0 {
                    Err(e) => (Err(e), rest.1),
                    Ok(more) => (Ok(ds + more), rest.1),
                }
            },
        }
    }
}

/// The id list the aggregator walks for an owner: the stored list, or the
/// single empty id when the store holds none.
pub open spec fn spec_user_ids(s: crate::store::StoreV, owner: Seq<char>) -> Seq<Seq<char>> {
    if s.users.contains_key(owner) {
        s.users[owner]
    } else {
        seq![Seq::<char>::empty()]
    }
}

/// What listing an owner's devices does to the output list and the store.
pub open spec fn spec_list_for_user(
    s: crate::store::StoreV,
    cp: crate::controlplane::CpV,
    owner: Seq<char>,
) -> (Result<Seq<DeviceV>, crate::refresh::ResolveError>, Map<Seq<char>, DeviceV>) {
    spec_list_ids(s.devices, cp, spec_user_ids(s, owner))
}

/// The aggregation loop's accounting: what the full pass from `m0` yields
/// is what the pass from the current store over the remaining ids yields,
/// prefixed by the devices already accumulated.
pub open spec fn spec_agg_inv(
    m0: Map<Seq<char>, DeviceV>,
    cp: crate::controlplane::CpV,
    ids: Seq<Seq<char>>,
    i: int,
    cur: Map<Seq<char>, DeviceV>,
    outv: Seq<DeviceV>,
) -> bool {
    spec_list_ids(m0, cp, ids) == (match spec_list_ids(cur, cp, ids.skip(i)) {
        (Ok(rest), mf) => (Ok::<Seq<DeviceV>, crate::refresh::ResolveError>(outv + rest), mf),
        (Err(e), mf) => (Err::<Seq<DeviceV>, crate::refresh::ResolveError>(e), mf),
    })
}

proof fn lemma_agg_init(
    m0: Map<Seq<char>, DeviceV>,
    cp: crate::controlplane::CpV,
    ids: Seq<Seq<char>>,
)
    ensures
        spec_agg_inv(m0, cp, ids, 0, m0, Seq::<DeviceV>::empty()),
{
    assert(ids.skip(0) =~= ids);
    match spec_list_ids(m0, cp, ids).0 {
        Ok(rest) => {
            assert(Seq::<DeviceV>::empty() + rest =~= rest);
        },
        Err(_) => {},
    }
}

proof fn lemma_agg_step(
    m0: Map<Seq<char>, DeviceV>,
    cp: crate::controlplane::CpV,
    ids: Seq<Seq<char>>,
    i: int,
    cur: Map<Seq<char>, DeviceV>,
    outv: Seq<DeviceV>,
    ds: Seq<DeviceV>,
    m1: Map<Seq<char>, DeviceV>,
)
    requires
        0 <= i < ids.len(),
        spec_agg_inv(m0, cp, ids, i, cur, outv),
        spec_process_one(cur, cp, ids[i]) == (
            Ok::<Seq<DeviceV>, crate::refresh::ResolveError>(ds),
            m1,
        ),
    ensures
        spec_agg_inv(m0, cp, ids, i + 1, m1, outv + ds),
{
    let tail = ids.skip(i);
    assert(tail[0] == ids[i]);
    assert(tail.drop_first() =~= ids.skip(i + 1));
    match spec_list_ids(m1, cp, ids.skip(i + 1)).0 {
        Ok(more) => {
            assert(outv + (ds + more) =~= (outv + ds) + more);
        },
        Err(_) => {},
    }
}

proof fn lemma_agg_err(
    m0: Map<Seq<char>, DeviceV>,
    cp: crate::controlplane::CpV,
    ids: Seq<Seq<char>>,
    i: int,
    cur: Map<Seq<char>, DeviceV>,
    outv: Seq<DeviceV>,
    e: crate::refresh::ResolveError,
    m1: Map<Seq<char>, DeviceV>,
)
    requires
        0 <= i < ids.len(),
        spec_agg_inv(m0, cp, ids, i, cur, outv),
        spec_process_one(cur, cp, ids[i]) == (
            Err::<Seq<DeviceV>, crate::refresh::ResolveError>(e),
            m1,
        ),
    ensures
        spec_list_ids(m0, cp, ids) == (Err::<Seq<DeviceV>, crate::refresh::ResolveError>(e), m1),
{
    let tail = ids.skip(i);
    assert(tail[0] == ids[i]);
}

proof fn lemma_agg_done(
    m0: Map<Seq<char>, DeviceV>,
    cp: crate::controlplane::CpV,
    ids: Seq<Seq<char>>,
    cur: Map<Seq<char>, DeviceV>,
    outv: Seq<DeviceV>,
)
    requires
        spec_agg_inv(m0, cp, ids, ids.len() as int, cur, outv),
    ensures
        spec_list_ids(m0, cp, ids) == (Ok::<Seq<DeviceV>, crate::refresh::ResolveError>(outv), cur),
{
    assert(ids.skip(ids.len() as int) =~= Seq::<Seq<char>>::empty());
    assert(outv + Seq::<DeviceV>::empty() =~= outv);
}

/// Resolves one id and appends its devices (for a host: zones, then the
/// host) to `out`.
fn process_one_id(
    id: &String,
    store: &mut crate::store::Store,
    cp: &crate::controlplane::ControlPlane,
    out: &mut Vec<Device>,
) -> (r: Result<(), crate::refresh::ResolveError>)
    requires
        old(store).wf(),
        cp.wf(),
    ensures
        final(store).wf(),
        final(store)@.users == old(store)@.users,
        ({
            let pm = spec_process_one(old(store)@.devices, cp@, id@);
            final(store)@.devices == pm.1 && match (r, pm.0) {
                (Ok(()), Ok(ds)) => final(out).deep_view() == old(out).deep_view() + ds,
                (Err(e), Err(e2)) => e == e2 && *final(out) == *old(out),
                _ => false,
            }
        }),
{
    let ghost m_in = store@.devices;
    let dev = match get_device_from_guid(id, store, cp) {
        Ok(d) => d,
        Err(e) => {
            return Err(e);
        },
    };
    match dev.kind {
        DeviceType::TV => {
            let d2 = crate::tv::parse_device(dev, store, cp);
            out.push(d2);
            proof {
                let ds = spec_process_one(m_in, cp@, id@).0->Ok_0;
                assert(out.deep_view() =~= old(out).deep_view() + ds);
            }
        },
        DeviceType::SqlSprinklerHost => {
            if cp.probe(&dev.ip) {
                match crate::sqlsprinkler::check_if_device_is_sqlsprinkler_host(&dev, cp) {
                    Ok(mut zds) => {
                        let ghost zdsv = zds.deep_view();
                        let ghost zds_old = zds@;
                        out.append(&mut zds);
                        out.push(dev);
                        proof {
                            let ds = spec_process_one(m_in, cp@, id@).0->Ok_0;
                            assert forall|k: int|
                                0 <= k < out.deep_view().len() implies out.deep_view()[k] == (
                            old(out).deep_view() + ds)[k] by {
                                if k < old(out)@.len() {
                                } else if k < old(out)@.len() + zdsv.len() {
                                    assert(out@[k] == zds_old[k - old(out)@.len()]);
                                    assert(zdsv[k - old(out)@.len()] == zds_old[k - old(out)@.len()].deep_view());
                                } else {
                                }
                            }
                            assert(out.deep_view() =~= old(out).deep_view() + ds);
                        }
                    },
                    Err(e) => {
                        return Err(e);
                    },
                }
            } else {
                out.push(dev);
                proof {
                    let ds = spec_process_one(m_in, cp@, id@).0->Ok_0;
                    assert(out.deep_view() =~= old(out).deep_view() + ds);
                }
            }
        },
        _ => {
            out.push(dev);
            proof {
                let ds = spec_process_one(m_in, cp@, id@).0->Ok_0;
                assert(out.deep_view() =~= old(out).deep_view() + ds);
            }
        },
    }
    Ok(())
}

/// Lists every device of one owner: each stored id is resolved, televisions
/// are refreshed once more, and each reachable multi-zone host is expanded
/// into its zone devices followed by the host itself; an unreachable host
/// is kept with the false live-state sentinel and no zones.
pub fn get_devices_uuid(
    user_uuid: &String,
    store: &mut crate::store::Store,
    cp: &crate::controlplane::ControlPlane,
) -> (r: Result<Vec<Device>, crate::refresh::ResolveError>)
    requires
        old(store).wf(),
        cp.wf(),
    ensures
        final(store).wf(),
        final(store)@.users == old(store)@.users,
        ({
            let lm = spec_list_for_user(old(store)@, cp@, user_uuid@);
            final(store)@.devices == lm.1 && match (r, lm.0) {
                (Ok(ds), Ok(dvs)) => ds.deep_view() == dvs,
                (Err(e), Err(e2)) => e == e2,
                _ => false,
            }
        }),
{
    let ghost m0 = old(store)@.devices;
    let ghost u0 = old(store)@.users;
    let ids: Vec<String> = match store.get_user_devices(user_uuid) {
        Some(v) => v,
        None => {
            let mut v: Vec<String> = Vec::new();
            v.push(String::new());
            v
        },
    };
    let ghost idsv = crate::store::names_seq(ids@);
    proof {
        assert(idsv =~= spec_user_ids(old(store)@, user_uuid@));
        lemma_agg_init(m0, cp@, idsv);
    }
    let mut out: Vec<Device> = Vec::new();
    let mut i: usize = 0;
    proof {
        assert(out.deep_view() =~= Seq::<DeviceV>::empty());
    }
    while i < ids.len()
        invariant
            store.wf(),
            cp.wf(),
            i <= ids@.len(),
            idsv == crate::store::names_seq(ids@),
            m0 == old(store)@.devices,
            u0 == old(store)@.users,
            idsv == spec_user_ids(old(store)@, user_uuid@),
            store@.users == u0,
            spec_agg_inv(m0, cp@, idsv, i as int, store@.devices, out.deep_view()),
        decreases ids@.len() - i,
    {
        let ghost m_in = store@.devices;
        let ghost out_before = out.deep_view();
        proof {
            assert(ids@[i as int]@ == idsv[i as int]);
        }
        match process_one_id(&ids[i], store, cp, &mut out) {
            Ok(()) => {
                proof {
                    let pm = spec_process_one(m_in, cp@, idsv[i as int]);
                    lemma_agg_step(
                        m0,
                        cp@,
                        idsv,
                        i as int,
                        m_in,
                        out_before,
                        pm.0->Ok_0,
                        pm.1,
                    );
                }
            },
            Err(e) => {
                proof {
                    lemma_agg_err(
                        m0,
                        cp@,
                        idsv,
                        i as int,
                        m_in,
                        out_before,
                        e,
                        store@.devices,
                    );
                }
                return Err(e);
            },
        }
        i = i + 1;
    }
    proof {
        lemma_agg_done(m0, cp@, idsv, store@.devices, out.deep_view());
    }
    Ok(out)
}

/// One device as the external platform's device-sync schema presents it.
#[derive(Debug)]
pub struct SyncEntry {
    pub id: String,
    pub device_type: String,
    pub traits: Vec<String>,
    pub name: String,
    pub default_names: Vec<String>,
    pub nicknames: Vec<String>,
    pub attributes: Attributes,
    pub manufacturer: String,
    pub model: String,
    pub hw_version: String,
    pub sw_version: String,
    pub will_report_state: bool,
}

/// Mathematical value of a `SyncEntry`.
pub ghost struct SyncEntryV {
    pub id: Seq<char>,
    pub device_type: Seq<char>,
    pub traits: Seq<Seq<char>>,
    pub name: Seq<char>,
    pub default_names: Seq<Seq<char>>,
    pub nicknames: Seq<Seq<char>>,
    pub attributes: Attributes,
    pub manufacturer: Seq<char>,
    pub model: Seq<char>,
    pub hw_version: Seq<char>,
    pub sw_version: Seq<char>,
    pub will_report_state: bool,
}

impl View for SyncEntry {
    type V = SyncEntryV;

    open spec fn view(&self) -> SyncEntryV {
        SyncEntryV {
            id: self.id@,
            device_type: self.device_type@,
            traits: Seq::new(self.traits@.len(), |i: int| self.traits@[i]@),
            name: self.name@,
            default_names: Seq::new(self.default_names@.len(), |i: int| self.default_names@[i]@),
            nicknames: Seq::new(self.nicknames@.len(), |i: int| self.nicknames@[i]@),
            attributes: self.attributes,
            manufacturer: self.manufacturer@,
            model: self.model@,
            hw_version: self.hw_version@,
            sw_version: self.sw_version@,
            will_report_state: self.will_report_state,
        }
    }
}

/// A catalog entry that can present itself in the external device-sync
/// schema.
pub trait GoogleDevice {
    /// The entry this value projects to.
    spec fn spec_sync_entry(&self) -> SyncEntryV;

    /// Projects this value into the external schema.
    fn google_smarthome_json(&self) -> (r: SyncEntry)
        ensures
            r@ == self.spec_sync_entry(),
    ;
}

/// The projection of a device record into the external schema: a pure
/// function of the record.
pub open spec fn spec_sync_entry_of_device(d: DeviceV) -> SyncEntryV {
    SyncEntryV {
        id: d.guid,
        device_type: spec_google_type(d.kind),
        traits: spec_google_traits(d.kind),
        name: spec_display_name(d),
        default_names: seq![spec_display_name(d)],
        nicknames: d.nicknames,
        attributes: spec_attributes(d.kind),
        manufacturer: "GTECH"@,
        model: spec_google_hardware(d.hardware),
        hw_version: "1.0"@,
        sw_version: d.sw_version,
        will_report_state: true,
    }
}

impl GoogleDevice for Device {
    open spec fn spec_sync_entry(&self) -> SyncEntryV {
        spec_sync_entry_of_device(self@)
    }

    /// Builds the device-sync entry for this record.
    fn google_smarthome_json(&self) -> (r: SyncEntry) {
        let traits_str = self.get_google_device_traits();
        let mut traits: Vec<String> = Vec::new();
        let mut i: usize = 0;
        while i < traits_str.len()
            invariant
                i <= traits_str@.len(),
                traits@.len() == i,
                forall|j: int| 0 <= j < i ==> #[trigger] traits@[j]@ == traits_str@[j]@,
            decreases traits_str@.len() - i,
        {
            traits.push(String::from_str(traits_str[i]));
            i = i + 1;
        }
        let name = self.get_name().clone();
        let mut default_names: Vec<String> = Vec::new();
        default_names.push(name.clone());
        let r = SyncEntry {
            id: self.guid.clone(),
            device_type: String::from_str(self.get_google_device_type()),
            traits,
            name,
            default_names,
            nicknames: clone_names(&self.nicknames),
            attributes: self.get_attributes(),
            manufacturer: String::from_str("GTECH"),
            model: String::from_str(self.get_google_device_hardware()),
            hw_version: String::from_str("1.0"),
            sw_version: self.sw_version.clone(),
            will_report_state: true,
        };
        proof {
            assert(r@.traits =~= spec_google_traits(self.kind));
            assert(r@.default_names =~= seq![spec_display_name(self@)]);
            assert(r@.nicknames =~= self@.nicknames);
        }
        r
    }
}

} // verus!
