//! Devices as the host's USB access layer shows them.
//!
//! For each device the caller queries the device descriptor, the bus number,
//! the chain of port numbers, whether the active configuration descriptor
//! can be read, and, for an active device, the product string in the
//! device's first language and in ASCII. What a query gave is handed over as
//! it came, `None` standing for a query that failed.

use vstd::prelude::*;
use vstd::string::*;
use crate::device::{
    identifier_text, lemma_absent_is_left_out, lemma_present_has_a_source,
    lemma_present_is_kept, present, unknown_field_text, views, Device, DeviceView,
};
use crate::text::{decimal, decimal_string};
use crate::topology::{lemma_path_text_names_a_device, path_text, topology_path};

verus! {

/// The vendor and product id of a device descriptor.
#[derive(Clone, Copy, Debug, PartialEq, Eq, Structural)]
pub struct Ids {
    /// The vendor id.
    pub vendor: u16,
    /// The product id.
    pub product: u16,
}

/// What the access layer gave for one device.
pub struct Probe {
    /// The ids of the device descriptor.
    pub ids: Option<Ids>,
    /// The number of the bus that the device is on.
    pub bus: u8,
    /// The hub ports between the bus and the device, outermost first.
    pub ports: Option<Vec<u8>>,
    /// Whether the active configuration descriptor could be read.
    pub configured: bool,
    /// The product string in the device's first language.
    pub localized_name: Option<String>,
    /// The product string in ASCII.
    pub ascii_name: Option<String>,
}

/// What a [`Probe`] holds, as plain values.
pub struct ProbeView {
    /// The ids of the device descriptor.
    pub ids: Option<Ids>,
    /// The number of the bus that the device is on.
    pub bus: u8,
    /// The hub ports between the bus and the device, outermost first.
    pub ports: Option<Seq<u8>>,
    /// Whether the active configuration descriptor could be read.
    pub configured: bool,
    /// The product string in the device's first language.
    pub localized_name: Option<Seq<char>>,
    /// The product string in ASCII.
    pub ascii_name: Option<Seq<char>>,
}

/// What a string query gave, as characters.
pub open spec fn name_text(name: Option<String>) -> Option<Seq<char>> {
    match name {
        Some(content) => Some(content@),
        None => None,
    }
}

/// What the port query gave, as a sequence.
pub open spec fn chain(ports: Option<Vec<u8>>) -> Option<Seq<u8>> {
    match ports {
        Some(numbers) => Some(numbers@),
        None => None,
    }
}

impl View for Probe {
    type V = ProbeView;

    open spec fn view(&self) -> ProbeView {
        ProbeView {
            ids: self.ids,
            bus: self.bus,
            ports: chain(self.ports),
            configured: self.configured,
            localized_name: name_text(self.localized_name),
            ascii_name: name_text(self.ascii_name),
        }
    }
}

/// What the description of an inactive device starts with.
pub open spec fn inactive_device_prefix_text() -> Seq<char> {
    "inactive device with id = "@
}

/// The vendor id as it stands in the identifier: in decimal, unpadded.
pub open spec fn vendor_text(ids: Option<Ids>) -> Seq<char> {
    match ids {
        Some(both) => decimal(both.vendor as nat),
        None => unknown_field_text(),
    }
}

/// The product id as it stands in the identifier: in decimal, unpadded.
pub open spec fn product_text(ids: Option<Ids>) -> Seq<char> {
    match ids {
        Some(both) => decimal(both.product as nat),
        None => unknown_field_text(),
    }
}

/// A string query offers a name when it succeeded and the string is not empty.
pub open spec fn offers_name(name: Option<Seq<char>>) -> bool {
    name matches Some(content) && content.len() > 0
}

/// The description of a device with the identifier `identifier`.
///
/// An inactive device is not asked for strings; its description is a fixed
/// marker with the identifier. For an active device the localized product
/// string comes first, the ASCII one second and the bare identifier last,
/// each used only where the one before offers nothing.
pub open spec fn description_text(
    configured: bool,
    localized_name: Option<Seq<char>>,
    ascii_name: Option<Seq<char>>,
    identifier: Seq<char>,
) -> Seq<char> {
    if !configured {
        inactive_device_prefix_text() + identifier
    } else if offers_name(localized_name) {
        localized_name->0
    } else if offers_name(ascii_name) {
        ascii_name->0
    } else {
        identifier
    }
}

/// Resolves the description of a device with the identifier `identifier`.
pub fn description(
    configured: bool,
    localized_name: &Option<String>,
    ascii_name: &Option<String>,
    identifier: &str,
) -> (r: String)
    ensures
        r@ == description_text(
            configured,
            name_text(*localized_name),
            name_text(*ascii_name),
            identifier@,
        ),
{
    if !configured {
        let mut marker: String = "inactive device with id = ".to_owned();
        marker.append(identifier);
        return marker;
    }
    if let Some(content) = localized_name {
        if !content.as_str().is_empty() {
            return content.clone();
        }
    }
    if let Some(content) = ascii_name {
        if !content.as_str().is_empty() {
            return content.clone();
        }
    }
    identifier.to_owned()
}

impl ProbeView {
    /// A device has a token when its port chain was resolved and is not empty.
    pub open spec fn resolved(self) -> bool {
        self.ports matches Some(numbers) && numbers.len() > 0
    }

    /// The identifier of the probed device.
    pub open spec fn identifier(self) -> Seq<char> {
        identifier_text(vendor_text(self.ids), product_text(self.ids))
    }

    /// The device that the probe stands for.
    pub open spec fn device(self) -> DeviceView {
        DeviceView {
            vendor: vendor_text(self.ids),
            product: product_text(self.ids),
            path: path_text(self.bus, self.ports->0),
            description: description_text(
                self.configured,
                self.localized_name,
                self.ascii_name,
                self.identifier(),
            ),
        }
    }

    /// The probe's device where its chain was resolved.
    pub open spec fn candidate(self) -> Option<DeviceView> {
        if self.resolved() {
            Some(self.device())
        } else {
            None
        }
    }
}

/// The views of the probes in `probes`, in order.
pub open spec fn probe_views(probes: Seq<Probe>) -> Seq<ProbeView> {
    probes.map_values(|probe: Probe| probe@)
}

/// The devices among `probes`: those with a resolved port chain, in the order given.
pub open spec fn listed(probes: Seq<ProbeView>) -> Seq<DeviceView> {
    present(probes.map_values(|probe: ProbeView| probe.candidate()))
}

/// A device without a port chain is excluded: a probe whose chain could not
/// be resolved, or is empty, changes nothing in the enumeration.
pub proof fn lemma_unresolved_probes_are_excluded(probes: Seq<ProbeView>, at: int)
    requires
        0 <= at < probes.len(),
        probes[at].ports is None || probes[at].ports->0.len() == 0,
    ensures
        listed(probes) == listed(probes.remove(at)),
{
    let candidates = probes.map_values(|probe: ProbeView| probe.candidate());
    lemma_absent_is_left_out(candidates, at);
    assert(candidates.remove(at) =~= probes.remove(at).map_values(
        |probe: ProbeView| probe.candidate(),
    ));
}

/// Nothing else is enumerated: the device at `k` of the enumeration stands
/// for the probe at the position returned, whose port chain is not empty.
pub proof fn lemma_listed_device_has_a_probe(probes: Seq<ProbeView>, k: int) -> (at: int)
    requires
        0 <= k < listed(probes).len(),
    ensures
        0 <= at < probes.len(),
        listed(probes)[k] == probes[at].device(),
        probes[at].ports matches Some(numbers) && numbers.len() > 0,
        listed(probes)[k].path == path_text(probes[at].bus, probes[at].ports->0),
{
    let candidates = probes.map_values(|probe: ProbeView| probe.candidate());
    lemma_present_has_a_source(candidates, k)
}

/// A device with a port chain is enumerated, in the order given, under
/// the token of its bus and chain, whether or not its descriptor could be read.
pub proof fn lemma_resolved_probes_are_listed(probes: Seq<ProbeView>, at: int)
    requires
        0 <= at < probes.len(),
        probes[at].ports matches Some(numbers) && numbers.len() > 0,
    ensures
        listed(probes) == listed(probes.take(at)).push(probes[at].device()) + listed(
            probes.skip(at + 1),
        ),
        probes[at].device().path == path_text(probes[at].bus, probes[at].ports->0),
{
    let candidates = probes.map_values(|probe: ProbeView| probe.candidate());
    lemma_present_is_kept(candidates, at);
    assert(candidates.take(at) =~= probes.take(at).map_values(
        |probe: ProbeView| probe.candidate(),
    ));
    assert(candidates.skip(at + 1) =~= probes.skip(at + 1).map_values(
        |probe: ProbeView| probe.candidate(),
    ));
}

/// Tells whether the probed device is active: whether its configuration descriptor could be read.
pub fn is_active(probe: &Probe) -> (r: bool)
    ensures
        r == probe@.configured,
{
    probe.configured
}

/// Makes the device that `probe` stands for, unless its port chain is missing or empty.
pub fn device_of(probe: &Probe) -> (r: Option<Device>)
    ensures
        r is Some <==> probe@.resolved(),
        r matches Some(device) ==> device@ == probe@.device(),
{
    let path: String = match &probe.ports {
        Some(numbers) => match topology_path(probe.bus, numbers.as_slice()) {
            Some(path) => path,
            None => {
                return None;
            },
        },
        None => {
            return None;
        },
    };
    let (vendor, product): (String, String) = match probe.ids {
        Some(both) => (decimal_string(both.vendor as u64), decimal_string(both.product as u64)),
        None => ("unknown".to_owned(), "unknown".to_owned()),
    };
    let mut identifier: String = String::new();
    identifier.append(vendor.as_str());
    identifier.append(":");
    identifier.append(product.as_str());
    proof {
        reveal_strlit(":");
        assert(identifier@ =~= probe@.identifier());
        lemma_path_text_names_a_device(probe.bus, probe@.ports->0);
    }
    let label: String = description(
        probe.configured,
        &probe.localized_name,
        &probe.ascii_name,
        identifier.as_str(),
    );
    Device::new(vendor, product, path, label)
}

/// Lists the devices among the probes.
pub fn enumerate(probes: &[Probe]) -> (r: Vec<Device>)
    ensures
        views(r@) == listed(probe_views(probes@)),
{
    let n: usize = probes.len();
    let mut devices: Vec<Device> = Vec::new();
    let mut i: usize = 0;
    assert(probe_views(probes@).take(0) =~= Seq::empty());
    assert(Seq::<ProbeView>::empty().map_values(|probe: ProbeView| probe.candidate())
        =~= Seq::empty());
    assert(views(devices@) =~= Seq::empty());
    while i < n
        invariant
            n == probes@.len(),
            i <= n,
            views(devices@) == listed(probe_views(probes@).take(i as int)),
        decreases n - i,
    {
        let ghost before = devices@;
        let ghost prefix = probe_views(probes@).take(i as int + 1);
        proof {
            let candidates = prefix.map_values(|probe: ProbeView| probe.candidate());
            assert(candidates.drop_last() =~= probe_views(probes@).take(i as int).map_values(
                |probe: ProbeView| probe.candidate(),
            ));
            assert(candidates.last() == probes@[i as int]@.candidate());
        }
        match device_of(&probes[i]) {
            Some(device) => {
                devices.push(device);
                assert(views(devices@) =~= views(before).push(device@));
            },
            None => {},
        }
        i += 1;
    }
    assert(probe_views(probes@).take(n as int) =~= probe_views(probes@));
    devices
}

} // verus!
