//! The device record and its identity.

use vstd::prelude::*;
use vstd::string::*;
use crate::text::{contains_char, same_text};

verus! {

/// A snapshot of one USB device that hangs off a hub port.
///
/// The record is taken once, at enumeration, and never changes. Whether the
/// device is bound to a driver is not part of it: that is kernel state, to be
/// read again whenever it matters.
pub struct Device {
    vendor: String,
    product: String,
    path: String,
    description: String,
}

/// What a [`Device`] holds, as plain sequences of characters.
pub struct DeviceView {
    /// The vendor id, as text.
    pub vendor: Seq<char>,
    /// The product id, as text.
    pub product: Seq<char>,
    /// The topology token that the kernel accepts for binding and unbinding.
    pub path: Seq<char>,
    /// A label for people.
    pub description: Seq<char>,
}

/// `vendor`, a colon, `product`: the identifier by which a device is asked for.
pub open spec fn identifier_text(vendor: Seq<char>, product: Seq<char>) -> Seq<char> {
    vendor + seq![':'] + product
}

/// What stands in the identifier for an id that could not be read.
pub open spec fn unknown_field_text() -> Seq<char> {
    "unknown"@
}

/// A token names a device when it is not empty and holds no colon: a colon
/// marks the name of an interface.
pub open spec fn names_a_device(path: Seq<char>) -> bool {
    path.len() > 0 && !path.contains(':')
}

impl DeviceView {
    /// The identifier of the device: `vendor:product`.
    pub open spec fn identifier(self) -> Seq<char> {
        identifier_text(self.vendor, self.product)
    }
}

impl View for Device {
    type V = DeviceView;

    closed spec fn view(&self) -> DeviceView {
        DeviceView {
            vendor: self.vendor@,
            product: self.product@,
            path: self.path@,
            description: self.description@,
        }
    }
}

impl Device {
    #[verifier::type_invariant]
    spec fn token_names_a_device(&self) -> bool {
        names_a_device(self.path@)
    }

    /// Makes the record of the device at `path`.
    ///
    /// An empty token names nothing and a token with a colon in it names an
    /// interface; no device is made of either.
    pub fn new(vendor: String, product: String, path: String, description: String) -> (r: Option<
        Device,
    >)
        ensures
            r is Some <==> names_a_device(path@),
            r matches Some(device) ==> device@ == (DeviceView {
                vendor: vendor@,
                product: product@,
                path: path@,
                description: description@,
            }),
    {
        if path.as_str().is_empty() || contains_char(path.as_str(), ':') {
            None
        } else {
            Some(Device { vendor, product, path, description })
        }
    }

    /// The vendor id, as text.
    pub fn vendor(&self) -> (r: &str)
        ensures
            r@ == self@.vendor,
    {
        self.vendor.as_str()
    }

    /// The product id, as text.
    pub fn product(&self) -> (r: &str)
        ensures
            r@ == self@.product,
    {
        self.product.as_str()
    }

    /// The topology token: the payload of a bind or unbind request.
    pub fn path(&self) -> (r: &str)
        ensures
            r@ == self@.path,
            names_a_device(r@),
    {
        proof {
            use_type_invariant(self);
        }
        self.path.as_str()
    }

    /// The label for people.
    pub fn description(&self) -> (r: &str)
        ensures
            r@ == self@.description,
    {
        self.description.as_str()
    }

    /// The identifier `vendor:product`, with nothing added.
    pub fn identifier(&self) -> (r: String)
        ensures
            r@ == self@.identifier(),
    {
        let mut id: String = String::new();
        id.append(self.vendor.as_str());
        id.append(":");
        id.append(self.product.as_str());
        proof {
            reveal_strlit(":");
            assert(id@ =~= self@.identifier());
        }
        id
    }
}

/// The views of the devices in `devices`, in order.
pub open spec fn views(devices: Seq<Device>) -> Seq<DeviceView> {
    devices.map_values(|device: Device| device@)
}

/// The devices among `candidates`, in order: each `Some` gives one, each `None` gives nothing.
pub open spec fn present(candidates: Seq<Option<DeviceView>>) -> Seq<DeviceView>
    decreases candidates.len(),
{
    if candidates.len() == 0 {
        Seq::empty()
    } else {
        match candidates.last() {
            Some(device) => present(candidates.drop_last()).push(device),
            None => present(candidates.drop_last()),
        }
    }
}

/// Enumerating in two runs and joining the results enumerates the whole.
pub proof fn lemma_present_concat(front: Seq<Option<DeviceView>>, back: Seq<Option<DeviceView>>)
    ensures
        present(front + back) == present(front) + present(back),
    decreases back.len(),
{
    if back.len() == 0 {
        assert(front + back =~= front);
        assert(present(front) + present(back) =~= present(front));
    } else {
        lemma_present_concat(front, back.drop_last());
        assert((front + back).drop_last() =~= front + back.drop_last());
        assert((front + back).last() == back.last());
        assert(present(front + back) =~= present(front) + present(back));
    }
}

/// A candidate that is no device leaves no trace in the enumeration.
pub proof fn lemma_absent_is_left_out(candidates: Seq<Option<DeviceView>>, at: int)
    requires
        0 <= at < candidates.len(),
        candidates[at] is None,
    ensures
        present(candidates) == present(candidates.remove(at)),
{
    let front = candidates.take(at);
    let back = candidates.skip(at + 1);
    let single = seq![candidates[at]];
    assert(single.drop_last() =~= Seq::empty());
    assert(present(single.drop_last()) =~= Seq::empty());
    assert(present(single) =~= Seq::empty());
    assert(candidates =~= front + single + back);
    assert(candidates.remove(at) =~= front + back);
    lemma_present_concat(front, single);
    lemma_present_concat(front + single, back);
    lemma_present_concat(front, back);
    assert(present(front) + present(single) =~= present(front));
}

/// A candidate that is a device is enumerated, after the devices before it
/// and ahead of those behind it.
pub proof fn lemma_present_is_kept(candidates: Seq<Option<DeviceView>>, at: int)
    requires
        0 <= at < candidates.len(),
        candidates[at] is Some,
    ensures
        present(candidates) == present(candidates.take(at)).push(candidates[at]->0) + present(
            candidates.skip(at + 1),
        ),
{
    let front = candidates.take(at);
    let back = candidates.skip(at + 1);
    let single = seq![candidates[at]];
    assert(single.drop_last() =~= Seq::empty());
    assert(present(single.drop_last()) =~= Seq::empty());
    assert(present(single) =~= seq![candidates[at]->0]);
    assert(candidates =~= front + single + back);
    lemma_present_concat(front, single);
    lemma_present_concat(front + single, back);
    assert(present(front) + present(single) =~= present(front).push(candidates[at]->0));
}

/// Nothing is enumerated that was not a candidate: the device at `k` of the
/// enumeration is the candidate at the position returned.
pub proof fn lemma_present_has_a_source(candidates: Seq<Option<DeviceView>>, k: int) -> (at: int)
    requires
        0 <= k < present(candidates).len(),
    ensures
        0 <= at < candidates.len(),
        candidates[at] == Some(present(candidates)[k]),
    decreases candidates.len(),
{
    let rest = candidates.drop_last();
    if candidates.last() is Some && k == present(rest).len() {
        candidates.len() - 1
    } else {
        lemma_present_has_a_source(rest, k)
    }
}

/// Finds the device that `id` asks for.
///
/// Several devices of one make share an identifier; the first of them in
/// enumeration order is the one meant.
pub fn find_by_identifier(devices: &[Device], id: &str) -> (r: Option<usize>)
    ensures
        match r {
            Some(at) => {
                &&& at < devices@.len()
                &&& devices@[at as int]@.identifier() == id@
                &&& forall|k: int| 0 <= k < at ==> devices@[k]@.identifier() != id@
            },
            None => forall|k: int| 0 <= k < devices@.len() ==> devices@[k]@.identifier() != id@,
        },
{
    let n: usize = devices.len();
    let mut i: usize = 0;
    while i < n
        invariant
            n == devices@.len(),
            i <= n,
            forall|k: int| 0 <= k < i ==> devices@[k]@.identifier() != id@,
        decreases n - i,
    {
        let candidate: String = devices[i].identifier();
        if same_text(candidate.as_str(), id) {
            return Some(i);
        }
        i += 1;
    }
    None
}

} // verus!
