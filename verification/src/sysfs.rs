//! Devices as the kernel shows them under `/sys/bus/usb/devices`.
//!
//! Every entry of that directory is a device or an interface of a device. An
//! entry carries single-line attribute files; the caller reads them and hands
//! over what it got, `None` standing for a file that could not be read.

use vstd::prelude::*;
use vstd::string::*;
use crate::device::{
    lemma_absent_is_left_out, lemma_present_has_a_source, lemma_present_is_kept, names_a_device,
    present, unknown_field_text, views, Device, DeviceView,
};
use crate::text::{is_blank, lemma_trimmed_is_empty_iff_blank, same_text, trim, trimmed};

verus! {

/// The attribute files of a device entry that the library knows of.
#[derive(Clone, Copy, Debug, PartialEq, Eq, Structural)]
pub enum Attribute {
    /// `idVendor`: the vendor id.
    VendorId,
    /// `idProduct`: the product id.
    ProductId,
    /// `bConfigurationValue`: the selected configuration, empty while the device is unbound.
    Configuration,
    /// `product`: the product's name.
    ProductName,
}

/// The directory whose entries are the USB devices and interfaces.
pub open spec fn devices_dir_text() -> Seq<char> {
    "/sys/bus/usb/devices"@
}

/// The vendor id under which the kernel registers the root hubs.
pub open spec fn root_hub_vendor_text() -> Seq<char> {
    "1d6b"@
}

/// What the description of a device without a readable name starts with.
pub open spec fn unknown_device_prefix_text() -> Seq<char> {
    "unknown device with id = "@
}

impl Attribute {
    /// The name of the attribute's file.
    pub open spec fn file_name_text(self) -> Seq<char> {
        match self {
            Attribute::VendorId => "idVendor"@,
            Attribute::ProductId => "idProduct"@,
            Attribute::Configuration => "bConfigurationValue"@,
            Attribute::ProductName => "product"@,
        }
    }

    /// The name of the attribute's file.
    pub fn file_name(self) -> (r: &'static str)
        ensures
            r@ == self.file_name_text(),
    {
        match self {
            Attribute::VendorId => "idVendor",
            Attribute::ProductId => "idProduct",
            Attribute::Configuration => "bConfigurationValue",
            Attribute::ProductName => "product",
        }
    }
}

/// The path of the file that holds `attribute` of the entry `name`.
pub open spec fn attribute_path_text(name: Seq<char>, attribute: Attribute) -> Seq<char> {
    devices_dir_text() + seq!['/'] + name + seq!['/'] + attribute.file_name_text()
}

/// The directory to list for the entries.
pub fn devices_dir() -> (r: &'static str)
    ensures
        r@ == devices_dir_text(),
{
    "/sys/bus/usb/devices"
}

/// The path of the file to read for `attribute` of the entry `name`.
pub fn attribute_path(name: &str, attribute: Attribute) -> (r: String)
    ensures
        r@ == attribute_path_text(name@, attribute),
{
    let mut path: String = String::new();
    path.append(devices_dir());
    path.append("/");
    path.append(name);
    path.append("/");
    path.append(attribute.file_name());
    proof {
        reveal_strlit("/");
        assert(path@ =~= attribute_path_text(name@, attribute));
    }
    path
}

/// The text of an id attribute: its content without surrounding whitespace,
/// or the placeholder when the read failed.
pub open spec fn field_text(read: Option<Seq<char>>) -> Seq<char> {
    match read {
        Some(content) => trimmed(content),
        None => unknown_field_text(),
    }
}

/// The description of the device at `path`: its trimmed product name, or a
/// marker with the token in it when the name could not be read.
pub open spec fn description_text(read: Option<Seq<char>>, path: Seq<char>) -> Seq<char> {
    match read {
        Some(content) => trimmed(content),
        None => unknown_device_prefix_text() + path,
    }
}

/// A device is active when its configuration attribute was read and holds
/// more than whitespace.
pub open spec fn configured(read: Option<Seq<char>>) -> bool {
    read matches Some(content) && trimmed(content).len() > 0
}

/// A device whose configuration attribute is absent, empty or blank is
/// inactive; a device whose attribute shows anything else is active.
pub proof fn lemma_active_iff_configuration_shows(read: Option<Seq<char>>)
    ensures
        read is None ==> !configured(read),
        read == Some(Seq::<char>::empty()) ==> !configured(read),
        configured(read) <==> read is Some && !is_blank(read->0),
{
    if let Some(content) = read {
        lemma_trimmed_is_empty_iff_blank(content);
    }
}

/// What was read, as characters.
pub open spec fn read_text(read: Option<String>) -> Option<Seq<char>> {
    match read {
        Some(content) => Some(content@),
        None => None,
    }
}

/// Resolves an id attribute to the text that stands in the identifier.
pub fn identifier_field(read: &Option<String>) -> (r: String)
    ensures
        r@ == field_text(read_text(*read)),
{
    match read {
        Some(content) => trim(content.as_str()),
        None => "unknown".to_owned(),
    }
}

/// Resolves the product-name attribute of the device at `path` to a description.
pub fn description(read: &Option<String>, path: &str) -> (r: String)
    ensures
        r@ == description_text(read_text(*read), path@),
{
    match read {
        Some(content) => trim(content.as_str()),
        None => {
            let mut marker: String = "unknown device with id = ".to_owned();
            marker.append(path);
            marker
        },
    }
}

/// Tells from the configuration attribute whether the device is bound and configured.
///
/// A read that failed counts as inactive.
pub fn is_active(read: &Option<String>) -> (r: bool)
    ensures
        r == configured(read_text(*read)),
{
    match read {
        Some(content) => {
            let value: String = trim(content.as_str());
            !value.as_str().is_empty()
        },
        None => false,
    }
}

/// One entry of the devices directory with what was read of its attributes.
pub struct Entry {
    /// The entry's file name.
    pub name: String,
    /// The content of `idVendor`.
    pub vendor_id: Option<String>,
    /// The content of `idProduct`.
    pub product_id: Option<String>,
    /// The content of `product`.
    pub product_name: Option<String>,
}

/// What an [`Entry`] holds, as plain sequences of characters.
pub struct EntryView {
    /// The entry's file name.
    pub name: Seq<char>,
    /// The content of `idVendor`.
    pub vendor_id: Option<Seq<char>>,
    /// The content of `idProduct`.
    pub product_id: Option<Seq<char>>,
    /// The content of `product`.
    pub product_name: Option<Seq<char>>,
}

impl View for Entry {
    type V = EntryView;

    open spec fn view(&self) -> EntryView {
        EntryView {
            name: self.name@,
            vendor_id: read_text(self.vendor_id),
            product_id: read_text(self.product_id),
            product_name: read_text(self.product_name),
        }
    }
}

impl EntryView {
    /// An entry is listed unless its name is no device's token (empty, or
    /// with a colon: an interface) or it is a root hub (the reserved vendor
    /// id). An unreadable vendor id excludes nothing.
    pub open spec fn listable(self) -> bool {
        names_a_device(self.name) && field_text(self.vendor_id) != root_hub_vendor_text()
    }

    /// The device that the entry stands for; its name is the device's token.
    pub open spec fn device(self) -> DeviceView {
        DeviceView {
            vendor: field_text(self.vendor_id),
            product: field_text(self.product_id),
            path: self.name,
            description: description_text(self.product_name, self.name),
        }
    }

    /// The entry's device where the entry is listed.
    pub open spec fn candidate(self) -> Option<DeviceView> {
        if self.listable() {
            Some(self.device())
        } else {
            None
        }
    }
}

/// The views of the entries in `entries`, in order.
pub open spec fn entry_views(entries: Seq<Entry>) -> Seq<EntryView> {
    entries.map_values(|entry: Entry| entry@)
}

/// The devices among `entries`: the listable ones, in directory order.
pub open spec fn listed(entries: Seq<EntryView>) -> Seq<DeviceView> {
    present(entries.map_values(|entry: EntryView| entry.candidate()))
}

/// Interfaces and root hubs are excluded: an entry with a colon in its name,
/// or with the root hubs' vendor id, changes nothing in the enumeration.
/// Nor does an entry without a name.
pub proof fn lemma_interfaces_and_root_hubs_are_excluded(entries: Seq<EntryView>, at: int)
    requires
        0 <= at < entries.len(),
        entries[at].name.contains(':') || field_text(entries[at].vendor_id)
            == root_hub_vendor_text() || entries[at].name.len() == 0,
    ensures
        listed(entries) == listed(entries.remove(at)),
{
    let candidates = entries.map_values(|entry: EntryView| entry.candidate());
    lemma_absent_is_left_out(candidates, at);
    assert(candidates.remove(at) =~= entries.remove(at).map_values(
        |entry: EntryView| entry.candidate(),
    ));
}

/// Nothing else is enumerated: the device at `k` of the enumeration stands
/// for the entry at the position returned, which is no interface and no root hub.
pub proof fn lemma_listed_device_has_an_entry(entries: Seq<EntryView>, k: int) -> (at: int)
    requires
        0 <= k < listed(entries).len(),
    ensures
        0 <= at < entries.len(),
        listed(entries)[k] == entries[at].device(),
        !entries[at].name.contains(':'),
        field_text(entries[at].vendor_id) != root_hub_vendor_text(),
        listed(entries)[k].path.len() > 0,
        !listed(entries)[k].path.contains(':'),
        listed(entries)[k].vendor != root_hub_vendor_text(),
{
    let candidates = entries.map_values(|entry: EntryView| entry.candidate());
    lemma_present_has_a_source(candidates, k)
}

/// Every other entry is enumerated: a named entry that is no interface and
/// no root hub stands in the enumeration, in directory order, with its name
/// as token, whether or not its attributes could be read.
pub proof fn lemma_device_entries_are_listed(entries: Seq<EntryView>, at: int)
    requires
        0 <= at < entries.len(),
        entries[at].name.len() > 0,
        !entries[at].name.contains(':'),
        field_text(entries[at].vendor_id) != root_hub_vendor_text(),
    ensures
        listed(entries) == listed(entries.take(at)).push(entries[at].device()) + listed(
            entries.skip(at + 1),
        ),
        entries[at].device().path == entries[at].name,
{
    let candidates = entries.map_values(|entry: EntryView| entry.candidate());
    lemma_present_is_kept(candidates, at);
    assert(candidates.take(at) =~= entries.take(at).map_values(
        |entry: EntryView| entry.candidate(),
    ));
    assert(candidates.skip(at + 1) =~= entries.skip(at + 1).map_values(
        |entry: EntryView| entry.candidate(),
    ));
}

/// A device entry whose vendor id could not be read is listed: the
/// placeholder is not the root hubs' vendor id.
pub proof fn lemma_unreadable_vendor_excludes_nothing(entry: EntryView)
    requires
        entry.name.len() > 0,
        !entry.name.contains(':'),
        entry.vendor_id is None,
    ensures
        entry.listable(),
        entry.device().vendor == unknown_field_text(),
{
    reveal_strlit("unknown");
    reveal_strlit("1d6b");
    assert(unknown_field_text().len() != root_hub_vendor_text().len());
}

/// Makes the device that `entry` stands for, unless the entry is not listed.
pub fn device_of(entry: &Entry) -> (r: Option<Device>)
    ensures
        r is Some <==> entry@.listable(),
        r matches Some(device) ==> device@ == entry@.device(),
{
    let vendor: String = identifier_field(&entry.vendor_id);
    if same_text(vendor.as_str(), "1d6b") {
        return None;
    }
    let product: String = identifier_field(&entry.product_id);
    let label: String = description(&entry.product_name, entry.name.as_str());
    Device::new(vendor, product, entry.name.clone(), label)
}

/// Lists the devices among the entries of the devices directory.
pub fn enumerate(entries: &[Entry]) -> (r: Vec<Device>)
    ensures
        views(r@) == listed(entry_views(entries@)),
{
    let n: usize = entries.len();
    let mut devices: Vec<Device> = Vec::new();
    let mut i: usize = 0;
    assert(entry_views(entries@).take(0) =~= Seq::empty());
    assert(Seq::<EntryView>::empty().map_values(|entry: EntryView| entry.candidate())
        =~= Seq::empty());
    assert(views(devices@) =~= Seq::empty());
    while i < n
        invariant
            n == entries@.len(),
            i <= n,
            views(devices@) == listed(entry_views(entries@).take(i as int)),
        decreases n - i,
    {
        let ghost before = devices@;
        let ghost prefix = entry_views(entries@).take(i as int + 1);
        proof {
            let candidates = prefix.map_values(|entry: EntryView| entry.candidate());
            assert(candidates.drop_last() =~= entry_views(entries@).take(i as int).map_values(
                |entry: EntryView| entry.candidate(),
            ));
            assert(candidates.last() == entries@[i as int]@.candidate());
        }
        match device_of(&entries[i]) {
            Some(device) => {
                devices.push(device);
                assert(views(devices@) =~= views(before).push(device@));
            },
            None => {},
        }
        i += 1;
    }
    assert(entry_views(entries@).take(n as int) =~= entry_views(entries@));
    devices
}

} // verus!
