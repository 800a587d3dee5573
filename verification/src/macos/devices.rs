use vstd::prelude::*;

use crate::audio::{DeviceInfo, DeviceInfoView, DeviceKind};

verus! {

/// Which device of a kind to capture: the system's default, or one by id.
#[derive(Clone, Debug, PartialEq, Eq)]
pub enum DeviceSelection {
    Default,
    DeviceId(String),
}

/// A device as the platform lists it.
#[derive(Clone, Debug, PartialEq, Eq)]
pub struct NativeDevice {
    pub id: String,
    pub name: String,
    pub kind: DeviceKind,
    pub is_default: bool,
}

/// A listed device as plain values.
pub struct NativeDeviceView {
    pub id: Seq<char>,
    pub name: Seq<char>,
    pub kind: DeviceKind,
    pub is_default: bool,
}

impl View for NativeDevice {
    type V = NativeDeviceView;

    open spec fn view(&self) -> NativeDeviceView {
        NativeDeviceView { id: self.id@, name: self.name@, kind: self.kind, is_default: self.is_default }
    }
}

/// Lists the platform's capture devices.
pub trait DeviceProvider {
    fn list(&self) -> Result<Vec<NativeDevice>, String>;
}

/// The device as the rest of the app sees it.
pub open spec fn info_of(d: NativeDeviceView) -> DeviceInfoView {
    DeviceInfoView { id: d.id, name: d.name, is_default: d.is_default, kind: d.kind }
}

/// Whether `s` already lists a device of `d`'s kind and id.
pub open spec fn listed_before(s: Seq<NativeDeviceView>, d: NativeDeviceView) -> bool {
    exists|j: int| 0 <= j < s.len() && (#[trigger] s[j]).kind == d.kind && s[j].id == d.id
}

/// The devices of `s` in order, each kind and id only at its first
/// occurrence.
pub open spec fn distinct_devices(s: Seq<NativeDeviceView>) -> Seq<DeviceInfoView>
    decreases s.len(),
{
    if s.len() == 0 {
        Seq::empty()
    } else if listed_before(s.drop_last(), s.last()) {
        distinct_devices(s.drop_last())
    } else {
        distinct_devices(s.drop_last()).push(info_of(s.last()))
    }
}

/// The first device of `s` of `kind` that `selection` means: the default
/// one, or the one with the selected id.
pub open spec fn selected_index(s: Seq<NativeDeviceView>, kind: DeviceKind, id: Option<Seq<char>>) -> Option<int>
    decreases s.len(),
{
    if s.len() == 0 {
        None
    } else {
        match selected_index(s.drop_last(), kind, id) {
            Some(i) => Some(i),
            None => if s.last().kind == kind && (match id {
                None => s.last().is_default,
                Some(t) => s.last().id == t,
            }) {
                Some(s.len() - 1)
            } else {
                None
            },
        }
    }
}

/// The selected id, or `None` for the default.
pub open spec fn selection_id(selection: DeviceSelection) -> Option<Seq<char>> {
    match selection {
        DeviceSelection::Default => None,
        DeviceSelection::DeviceId(id) => Some(id@),
    }
}

/// The device of `s` that `selection` means for `kind`, if any.
pub open spec fn resolved(s: Seq<NativeDeviceView>, kind: DeviceKind, selection: DeviceSelection) -> Option<DeviceInfoView> {
    match selected_index(s, kind, selection_id(selection)) {
        Some(i) => Some(info_of(s[i])),
        None => None,
    }
}

/// Each device of `s` as plain values.
pub open spec fn native_views(s: Seq<NativeDevice>) -> Seq<NativeDeviceView> {
    s.map_values(|d: NativeDevice| d@)
}

/// The devices a provider's listing gave, as plain values; none when it
/// failed.
pub open spec fn device_listing(r: Result<Vec<NativeDevice>, String>) -> Seq<NativeDeviceView> {
    match r {
        Ok(v) => native_views(v@),
        Err(_) => Seq::empty(),
    }
}

/// Each device of `s` as plain values.
pub open spec fn info_views(s: Seq<DeviceInfo>) -> Seq<DeviceInfoView> {
    s.map_values(|d: DeviceInfo| d@)
}

/// The device as the rest of the app sees it.
fn to_device_info(device: &NativeDevice) -> (res: DeviceInfo)
    ensures
        res@ == info_of(device@),
{
    DeviceInfo {
        id: device.id.clone(),
        name: device.name.clone(),
        is_default: device.is_default,
        kind: device.kind,
    }
}

proof fn lemma_selected_index_bounds(s: Seq<NativeDeviceView>, kind: DeviceKind, id: Option<Seq<char>>)
    ensures
        selected_index(s, kind, id) matches Some(i) ==> 0 <= i < s.len() && s[i].kind == kind && (
        match id {
            None => s[i].is_default,
            Some(t) => s[i].id == t,
        }),
    decreases s.len(),
{
    if s.len() > 0 {
        lemma_selected_index_bounds(s.drop_last(), kind, id);
        if let Some(i) = selected_index(s.drop_last(), kind, id) {
            assert(s.drop_last()[i] == s[i]);
        }
    }
}

/// Whether `s` holds a device of `kind` with `id`.
pub open spec fn holds_key(s: Seq<DeviceInfoView>, kind: DeviceKind, id: Seq<char>) -> bool {
    exists|k: int| 0 <= k < s.len() && (#[trigger] s[k]).kind == kind && s[k].id == id
}

proof fn lemma_distinct_keys(s: Seq<NativeDeviceView>, d: NativeDeviceView)
    ensures
        listed_before(s, d) <==> holds_key(distinct_devices(s), d.kind, d.id),
    decreases s.len(),
{
    if s.len() > 0 {
        let p = s.drop_last();
        let l = s.last();
        lemma_distinct_keys(p, d);
        lemma_distinct_keys(p, l);
        let dp = distinct_devices(p);
        if listed_before(s, d) {
            let j = choose|j: int| 0 <= j < s.len() && (#[trigger] s[j]).kind == d.kind && s[j].id == d.id;
            if j < s.len() - 1 {
                assert(p[j] == s[j]);
                assert(listed_before(p, d));
            } else {
                assert(l.kind == d.kind && l.id == d.id);
                if listed_before(p, l) {
                    let j2 = choose|j2: int| 0 <= j2 < p.len() && (#[trigger] p[j2]).kind == l.kind && p[j2].id == l.id;
                    assert(listed_before(p, d));
                } else {
                    let ds = distinct_devices(s);
                    assert(ds == dp.push(info_of(l)));
                    assert(ds[dp.len() as int] == info_of(l));
                }
            }
            if listed_before(p, d) {
                let k = choose|k: int| 0 <= k < dp.len() && (#[trigger] dp[k]).kind == d.kind && dp[k].id == d.id;
                if !listed_before(p, l) {
                    assert(distinct_devices(s)[k] == dp[k]);
                }
            }
        }
        if holds_key(distinct_devices(s), d.kind, d.id) {
            let ds = distinct_devices(s);
            let k = choose|k: int| 0 <= k < ds.len() && (#[trigger] ds[k]).kind == d.kind && ds[k].id == d.id;
            if listed_before(p, l) {
                assert(listed_before(p, d));
            } else if k < dp.len() {
                assert(ds[k] == dp[k]);
                assert(listed_before(p, d));
            } else {
                assert(s[s.len() - 1] == l);
            }
            let j = choose|j: int| 0 <= j < p.len() && (#[trigger] p[j]).kind == d.kind && p[j].id == d.id;
            if listed_before(p, d) {
                assert(s[j] == p[j]);
            }
        }
    }
}

/// No kind and id is listed twice.
pub proof fn listed_devices_are_distinct(s: Seq<NativeDeviceView>)
    ensures
        forall|i: int, j: int|
            0 <= i < j < distinct_devices(s).len() ==> !((#[trigger] distinct_devices(s)[i]).kind
                == (#[trigger] distinct_devices(s)[j]).kind && distinct_devices(s)[i].id
                == distinct_devices(s)[j].id),
    decreases s.len(),
{
    if s.len() > 0 {
        let p = s.drop_last();
        let l = s.last();
        listed_devices_are_distinct(p);
        lemma_distinct_keys(p, l);
        let dp = distinct_devices(p);
        let ds = distinct_devices(s);
        if !listed_before(p, l) {
            assert(ds == dp.push(info_of(l)));
            assert forall|i: int, j: int| 0 <= i < j < ds.len() implies !((#[trigger] ds[i]).kind
                == (#[trigger] ds[j]).kind && ds[i].id == ds[j].id) by {
                if j == dp.len() {
                    assert(ds[i] == dp[i]);
                    if ds[i].kind == ds[j].kind && ds[i].id == ds[j].id {
                        assert(holds_key(dp, l.kind, l.id));
                    }
                } else {
                    assert(ds[i] == dp[i]);
                    assert(ds[j] == dp[j]);
                }
            }
        }
    }
}

/// Every kind and id the platform lists is offered.
pub proof fn every_listed_device_is_offered(s: Seq<NativeDeviceView>, j: int)
    requires
        0 <= j < s.len(),
    ensures
        holds_key(distinct_devices(s), s[j].kind, s[j].id),
{
    assert(listed_before(s, s[j]));
    lemma_distinct_keys(s, s[j]);
}

fn holds_device(res: &Vec<DeviceInfo>, kind: DeviceKind, id: &String) -> (b: bool)
    ensures
        b <==> holds_key(info_views(res@), kind, id@),
{
    let ghost v = info_views(res@);
    let mut k: usize = 0;
    while k < res.len()
        invariant
            k <= res.len(),
            v == info_views(res@),
            forall|m: int| 0 <= m < k ==> !((#[trigger] v[m]).kind == kind && v[m].id == id@),
        decreases res.len() - k,
    {
        if res[k].kind == kind && res[k].id == *id {
            assert(v[k as int] == res@[k as int]@);
            return true;
        }
        k = k + 1;
    }
    false
}

/// Drops the devices listed twice: a kind and id keeps its first listing.
pub fn distinct(devices: &Vec<NativeDevice>) -> (res: Vec<DeviceInfo>)
    ensures
        info_views(res@) == distinct_devices(native_views(devices@)),
{
    let ghost all = native_views(devices@);
    let mut res: Vec<DeviceInfo> = Vec::new();
    let mut i: usize = 0;
    proof {
        assert(all.take(0) =~= Seq::<NativeDeviceView>::empty());
        assert(info_views(res@) =~= Seq::<DeviceInfoView>::empty());
    }
    while i < devices.len()
        invariant
            i <= devices.len(),
            all == native_views(devices@),
            info_views(res@) == distinct_devices(all.take(i as int)),
        decreases devices.len() - i,
    {
        let d = &devices[i];
        let ghost prefix = all.take(i as int);
        let ghost next = all.take(i + 1);
        proof {
            assert(next.drop_last() =~= prefix);
            assert(next.last() == all[i as int]);
            assert(all[i as int] == d@);
            lemma_distinct_keys(prefix, d@);
        }
        if !holds_device(&res, d.kind, &d.id) {
            let ghost before = res@;
            res.push(to_device_info(d));
            proof {
                assert(info_views(res@) =~= info_views(before).push(info_of(d@)));
            }
        }
        i = i + 1;
    }
    proof {
        assert(all.take(i as int) =~= all);
    }
    res
}

/// The device of `devices` that `selection` means for `kind`.
pub fn resolve_in(devices: &Vec<NativeDevice>, kind: DeviceKind, selection: &DeviceSelection) -> (res: Option<DeviceInfo>)
    ensures
        match res {
            Some(d) => resolved(native_views(devices@), kind, *selection) == Some(d@),
            None => resolved(native_views(devices@), kind, *selection) is None,
        },
{
    let ghost all = native_views(devices@);
    let ghost id = selection_id(*selection);
    let mut i: usize = 0;
    proof {
        assert(all.take(0) =~= Seq::<NativeDeviceView>::empty());
    }
    while i < devices.len()
        invariant
            i <= devices.len(),
            all == native_views(devices@),
            id == selection_id(*selection),
            selected_index(all.take(i as int), kind, id) is None,
        decreases devices.len() - i,
    {
        let d = &devices[i];
        let ghost next = all.take(i + 1);
        proof {
            assert(next.drop_last() =~= all.take(i as int));
            assert(next.last() == all[i as int]);
            assert(all[i as int] == d@);
        }
        let matches_selection = match selection {
            DeviceSelection::Default => d.is_default,
            DeviceSelection::DeviceId(id) => d.id == *id,
        };
        if d.kind == kind && matches_selection {
            proof {
                assert(selected_index(next, kind, id) == Some(i as int));
                lemma_selected_prefix(all, kind, id, i + 1);
            }
            return Some(to_device_info(d));
        }
        i = i + 1;
    }
    proof {
        assert(all.take(i as int) =~= all);
    }
    None
}

proof fn lemma_selected_prefix(s: Seq<NativeDeviceView>, kind: DeviceKind, id: Option<Seq<char>>, n: int)
    requires
        0 <= n <= s.len(),
        selected_index(s.take(n), kind, id) is Some,
    ensures
        selected_index(s, kind, id) == selected_index(s.take(n), kind, id),
    decreases s.len() - n,
{
    if n < s.len() {
        let t = s.take(n + 1);
        assert(t.drop_last() =~= s.take(n));
        lemma_selected_prefix(s, kind, id, n + 1);
        assert(s.take(s.len() as int) =~= s);
    } else {
        assert(s.take(n) =~= s);
    }
}

/// Capture devices as listed by a provider, without duplicates.
pub struct MacDevices<P: DeviceProvider> {
    provider: P,
}

impl<P: DeviceProvider + Default> MacDevices<P> {
    /// Devices listed by the platform's provider.
    pub fn new() -> (res: Self)
        ensures
            call_ensures(P::default, (), res.provider()),
    {
        MacDevices { provider: P::default() }
    }
}

impl<P: DeviceProvider> MacDevices<P> {
    /// The provider the devices are listed by.
    pub closed spec fn provider(&self) -> P {
        self.provider
    }

    /// Devices listed by `provider`.
    pub fn with_provider(provider: P) -> (res: Self)
        ensures
            res.provider() == provider,
    {
        MacDevices { provider }
    }

    /// `listed` is what the provider's listing may give, as plain values:
    /// nothing when the listing fails.
    pub open spec fn lists(&self, listed: Seq<NativeDeviceView>) -> bool {
        exists|r: Result<Vec<NativeDevice>, String>|
            #[trigger] call_ensures(P::list, (&self.provider(),), r) && device_listing(r) == listed
    }

    fn native_devices(&self) -> (res: Vec<NativeDevice>)
        ensures
            self.lists(native_views(res@)),
    {
        let listed = self.provider.list();
        let res = match listed {
            Ok(devices) => devices,
            Err(_) => Vec::new(),
        };
        assert(call_ensures(P::list, (&self.provider(),), listed));
        assert(device_listing(listed) == native_views(res@));
        res
    }

    /// The listed devices, each kind and id once, in listing order; nothing
    /// when the listing fails.
    pub fn list(&self) -> (res: Vec<DeviceInfo>)
        ensures
            exists|listed: Seq<NativeDeviceView>|
                #[trigger] self.lists(listed) && info_views(res@) == distinct_devices(listed),
    {
        let devices = self.native_devices();
        let res = distinct(&devices);
        assert(info_views(res@) == distinct_devices(native_views(devices@)));
        res
    }

    /// The default system output device.
    pub fn default_system(&self) -> (res: Option<DeviceInfo>)
        ensures
            res matches Some(d) ==> d.kind == DeviceKind::SystemOutput && d.is_default,
            exists|listed: Seq<NativeDeviceView>| #[trigger] self.lists(listed) && match res {
                Some(d) => resolved(listed, DeviceKind::SystemOutput, DeviceSelection::Default) == Some(d@),
                None => resolved(listed, DeviceKind::SystemOutput, DeviceSelection::Default) is None,
            },
    {
        self.default(DeviceKind::SystemOutput)
    }

    /// The default microphone.
    pub fn default_microphone(&self) -> (res: Option<DeviceInfo>)
        ensures
            res matches Some(d) ==> d.kind == DeviceKind::Microphone && d.is_default,
            exists|listed: Seq<NativeDeviceView>| #[trigger] self.lists(listed) && match res {
                Some(d) => resolved(listed, DeviceKind::Microphone, DeviceSelection::Default) == Some(d@),
                None => resolved(listed, DeviceKind::Microphone, DeviceSelection::Default) is None,
            },
    {
        self.default(DeviceKind::Microphone)
    }

    /// The first listed device of `kind` that `selection` means.
    pub fn resolve(&self, kind: DeviceKind, selection: &DeviceSelection) -> (res: Option<DeviceInfo>)
        ensures
            exists|listed: Seq<NativeDeviceView>| #[trigger] self.lists(listed) && match res {
                Some(d) => resolved(listed, kind, *selection) == Some(d@),
                None => resolved(listed, kind, *selection) is None,
            },
    {
        let devices = self.native_devices();
        let res = resolve_in(&devices, kind, selection);
        assert(match res {
            Some(d) => resolved(native_views(devices@), kind, *selection) == Some(d@),
            None => resolved(native_views(devices@), kind, *selection) is None,
        });
        res
    }

    fn default(&self, kind: DeviceKind) -> (res: Option<DeviceInfo>)
        ensures
            res matches Some(d) ==> d.kind == kind && d.is_default,
            exists|listed: Seq<NativeDeviceView>| #[trigger] self.lists(listed) && match res {
                Some(d) => resolved(listed, kind, DeviceSelection::Default) == Some(d@),
                None => resolved(listed, kind, DeviceSelection::Default) is None,
            },
    {
        let devices = self.native_devices();
        let res = resolve_in(&devices, kind, &DeviceSelection::Default);
        proof {
            let all = native_views(devices@);
            lemma_selected_index_bounds(all, kind, None);
            if let Some(i) = selected_index(all, kind, None) {
                assert(all[i] == devices@[i]@);
            }
            assert(selection_id(DeviceSelection::Default) == None::<Seq<char>>);
        }
        assert(match res {
            Some(d) => resolved(native_views(devices@), kind, DeviceSelection::Default) == Some(d@),
            None => resolved(native_views(devices@), kind, DeviceSelection::Default) is None,
        });
        res
    }
}

} // verus!
