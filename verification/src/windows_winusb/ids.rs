//! The identifiers that Windows gives to the functions of a composite device: which interface a
//! hardware ID names, and which class a compatible ID names.
use vstd::prelude::*;
use vstd::utf8::*;

use crate::text;

verus! {

/// A node of the device tree, by its handle.
#[derive(Clone, Copy, Debug, PartialEq, Eq, Structural)]
pub struct DevInst(pub u32);

/// Strings that a node lists under one property; an entry is `None` where it is not Unicode.
pub type IdList = Vec<Option<String>>;

/// The interface number that a hardware ID names: two hexadecimal digits after the last `&MI_`.
pub open spec fn hardware_id_interface(id: Seq<u8>) -> Option<u8> {
    let mark = encode_utf8("&MI_"@);
    if text::occurs(id, mark) {
        let at = choose|at: int| text::is_last_occurrence(id, mark, at);
        text::hex_byte_at(id, at + mark.len())
    } else {
        None
    }
}

/// The class, subclass and protocol that a compatible ID names: each two hexadecimal digits,
/// after `USB\Class_`, `&SubClass_` and `&Prot_`, one after the other from the start.
pub open spec fn compatible_id_class(id: Seq<u8>) -> Option<(u8, u8, u8)> {
    let class_at = encode_utf8("USB\\Class_"@).len() as int;
    let subclass_at = class_at + 2 + encode_utf8("&SubClass_"@).len();
    let protocol_at = subclass_at + 2 + encode_utf8("&Prot_"@).len();
    if text::occurs_at(id, encode_utf8("USB\\Class_"@), 0) && text::occurs_at(
        id,
        encode_utf8("&SubClass_"@),
        class_at + 2,
    ) && text::occurs_at(id, encode_utf8("&Prot_"@), subclass_at + 2) {
        match (
            text::hex_byte_at(id, class_at),
            text::hex_byte_at(id, subclass_at),
            text::hex_byte_at(id, protocol_at),
        ) {
            (Some(class), Some(subclass), Some(protocol)) => Some((class, subclass, protocol)),
            _ => None,
        }
    } else {
        None
    }
}

/// There is only one last occurrence.
proof fn lemma_last_occurrence_is_one(s: Seq<u8>, pattern: Seq<u8>, a: int, b: int)
    requires
        text::is_last_occurrence(s, pattern, a),
        text::is_last_occurrence(s, pattern, b),
    ensures
        a == b,
{
}

/// Parse interface number from a Hardware ID value
pub fn parse_hardware_id(s: &str) -> (interface_number: Option<u8>)
    ensures
        interface_number == hardware_id_interface(encode_utf8(s@)),
{
    let id: &[u8] = s.as_bytes();
    let mark: &[u8] = "&MI_".as_bytes();
    match text::rightmost(id, mark) {
        None => None,
        Some(at) => {
            proof {
                let chosen = choose|at: int| text::is_last_occurrence(id@, mark@, at);
                lemma_last_occurrence_is_one(id@, mark@, at as int, chosen);
                assert(at + mark.len() <= id.len());
            }
            text::parse_hex_byte(id, at + mark.len())
        },
    }
}

/// Parse class, subclass, protocol from a Compatible ID value
pub fn parse_compatible_id(s: &str) -> (class: Option<(u8, u8, u8)>)
    ensures
        class == compatible_id_class(encode_utf8(s@)),
{
    let id: &[u8] = s.as_bytes();
    let class_mark: &[u8] = "USB\\Class_".as_bytes();
    let subclass_mark: &[u8] = "&SubClass_".as_bytes();
    let protocol_mark: &[u8] = "&Prot_".as_bytes();
    if !text::stands_at(id, class_mark, 0) {
        return None;
    }
    let at: usize = class_mark.len();
    let class: u8 = match text::parse_hex_byte(id, at) {
        Some(value) => value,
        None => return None,
    };
    assert(at + 2 <= id.len());
    if !text::stands_at(id, subclass_mark, at + 2) {
        return None;
    }
    let at: usize = at + 2 + subclass_mark.len();
    let subclass: u8 = match text::parse_hex_byte(id, at) {
        Some(value) => value,
        None => return None,
    };
    if !text::stands_at(id, protocol_mark, at + 2) {
        return None;
    }
    let at: usize = at + 2 + protocol_mark.len();
    let protocol: u8 = match text::parse_hex_byte(id, at) {
        Some(value) => value,
        None => return None,
    };
    Some((class, subclass, protocol))
}

/// Two hexadecimal digits, of either case, write a byte.
pub open spec fn writes_byte(digits: Seq<u8>, value: u8) -> bool {
    &&& digits.len() == 2
    &&& text::digit_value(digits[0], 16) == Some(value as int / 16)
    &&& text::digit_value(digits[1], 16) == Some(value as int % 16)
}

/// Two digits are read as the byte that they write, wherever they stand.
proof fn lemma_written_byte(id: Seq<u8>, at: int, digits: Seq<u8>, value: u8)
    requires
        text::occurs_at(id, digits, at),
        writes_byte(digits, value),
    ensures
        text::hex_byte_at(id, at) == Some(value),
{
    reveal_with_fuel(text::digits_value, 3);
    assert(digits.drop_last().drop_last() =~= Seq::empty());
    assert(digits.drop_last().last() == digits[0]);
    assert(text::without_plus(digits) =~= digits);
}

/// A hardware ID names the interface whose number it writes after `&MI_`, whatever stands before
/// and behind, as long as no other `&MI_` stands behind.
pub proof fn law_hardware_id_reads_back(head: Seq<u8>, digits: Seq<u8>, value: u8, tail: Seq<u8>)
    requires
        writes_byte(digits, value),
        !text::occurs(tail, encode_utf8("&MI_"@)),
    ensures
        hardware_id_interface(head + encode_utf8("&MI_"@) + digits + tail) == Some(value),
{
    let mark = encode_utf8("&MI_"@);
    let id = head + mark + digits + tail;
    reveal_strlit("&MI_");
    is_ascii_chars_encode_utf8("&MI_"@);
    let at = head.len() as int;
    assert(id.subrange(at, at + mark.len()) =~= mark);
    assert(text::occurs_at(id, mark, at));
    assert forall|later: int| at < later implies !text::occurs_at(id, mark, later) by {
        if text::occurs_at(id, mark, later) {
            assert(id.subrange(later, later + mark.len())[0] == id[later]);
            let behind = at + mark.len() + 2;
            if later < behind {
                assert(id[later] != 0x26);
            } else {
                assert(tail.subrange(later - behind, later - behind + mark.len()) =~= id.subrange(
                    later,
                    later + mark.len(),
                ));
                assert(text::occurs_at(tail, mark, later - behind));
            }
        }
    }
    assert(text::is_last_occurrence(id, mark, at));
    let chosen = choose|at: int| text::is_last_occurrence(id, mark, at);
    lemma_last_occurrence_is_one(id, mark, at, chosen);
    assert(id.subrange(at + mark.len(), at + mark.len() + 2) =~= digits);
    lemma_written_byte(id, at + mark.len(), digits, value);
}

/// A hardware ID without `&MI_` names no interface.
pub proof fn law_hardware_id_without_mark(id: Seq<u8>)
    requires
        !text::occurs(id, encode_utf8("&MI_"@)),
    ensures
        hardware_id_interface(id) is None,
{
}

/// A compatible ID names the class, subclass and protocol that it writes, whatever stands behind.
pub proof fn law_compatible_id_reads_back(
    class_digits: Seq<u8>,
    class: u8,
    subclass_digits: Seq<u8>,
    subclass: u8,
    protocol_digits: Seq<u8>,
    protocol: u8,
    tail: Seq<u8>,
)
    requires
        writes_byte(class_digits, class),
        writes_byte(subclass_digits, subclass),
        writes_byte(protocol_digits, protocol),
    ensures
        compatible_id_class(
            encode_utf8("USB\\Class_"@) + class_digits + encode_utf8("&SubClass_"@)
                + subclass_digits + encode_utf8("&Prot_"@) + protocol_digits + tail,
        ) == Some((class, subclass, protocol)),
{
    let class_mark = encode_utf8("USB\\Class_"@);
    let subclass_mark = encode_utf8("&SubClass_"@);
    let protocol_mark = encode_utf8("&Prot_"@);
    let id = class_mark + class_digits + subclass_mark + subclass_digits + protocol_mark
        + protocol_digits + tail;
    let class_at = class_mark.len() as int;
    let subclass_at = class_at + 2 + subclass_mark.len();
    let protocol_at = subclass_at + 2 + protocol_mark.len();
    assert(id.subrange(0, class_at) =~= class_mark);
    assert(id.subrange(class_at, class_at + 2) =~= class_digits);
    assert(id.subrange(class_at + 2, subclass_at) =~= subclass_mark);
    assert(id.subrange(subclass_at, subclass_at + 2) =~= subclass_digits);
    assert(id.subrange(subclass_at + 2, protocol_at) =~= protocol_mark);
    assert(id.subrange(protocol_at, protocol_at + 2) =~= protocol_digits);
    lemma_written_byte(id, class_at, class_digits, class);
    lemma_written_byte(id, subclass_at, subclass_digits, subclass);
    lemma_written_byte(id, protocol_at, protocol_digits, protocol);
}

/// The first value that is there.
pub open spec fn first_some<T>(values: Seq<Option<T>>) -> Option<T>
    decreases values.len(),
{
    if values.len() == 0 {
        None
    } else if values[0] is Some {
        values[0]
    } else {
        first_some(values.skip(1))
    }
}

/// Where the first `n` values are missing, the first value is the one after them, or is to be
/// looked for behind it.
pub(crate) proof fn lemma_first_some<T>(values: Seq<Option<T>>, n: int)
    requires
        0 <= n <= values.len(),
        forall|i: int| 0 <= i < n ==> values[i] is None,
    ensures
        n == values.len() ==> first_some(values) is None,
        n < values.len() && values[n] is Some ==> first_some(values) == values[n],
    decreases values.len(),
{
    if n > 0 {
        let rest = values.skip(1);
        assert forall|i: int| 0 <= i < n - 1 implies rest[i] is None by {
            assert(rest[i] == values[i + 1]);
        }
        lemma_first_some(rest, n - 1);
    }
}

/// The interface number that one entry of a list of hardware IDs names.
pub open spec fn entry_interface(entry: Option<String>) -> Option<u8> {
    match entry {
        Some(id) => hardware_id_interface(encode_utf8(id@)),
        None => None,
    }
}

/// The class that one entry of a list of compatible IDs names.
pub open spec fn entry_class(entry: Option<String>) -> Option<(u8, u8, u8)> {
    match entry {
        Some(id) => compatible_id_class(encode_utf8(id@)),
        None => None,
    }
}

/// The interface number of a node: what the first of its hardware IDs names that names any.
pub open spec fn interface_number(hardware_ids: Option<IdList>) -> Option<u8> {
    match hardware_ids {
        Some(ids) => first_some(ids@.map_values(|entry: Option<String>| entry_interface(entry))),
        None => None,
    }
}

/// The class of a node: what the first of its compatible IDs names that names any.
pub open spec fn interface_class(compatible_ids: Option<IdList>) -> Option<(u8, u8, u8)> {
    match compatible_ids {
        Some(ids) => first_some(ids@.map_values(|entry: Option<String>| entry_class(entry))),
        None => None,
    }
}

/// The interface number of a node, from its hardware IDs; `None` for a node without the property.
pub fn get_interface_number(hardware_ids: &Option<IdList>) -> (number: Option<u8>)
    ensures
        number == interface_number(*hardware_ids),
{
    let ids: &IdList = match hardware_ids {
        Some(ids) => ids,
        None => return None,
    };
    let ghost named = ids@.map_values(|entry: Option<String>| entry_interface(entry));
    let mut i: usize = 0;
    while i < ids.len()
        invariant
            i <= ids.len(),
            *hardware_ids == Some(*ids),
            named == ids@.map_values(|entry: Option<String>| entry_interface(entry)),
            forall|j: int| 0 <= j < i ==> named[j] is None,
        decreases ids.len() - i,
    {
        if let Some(id) = &ids[i] {
            let number: Option<u8> = parse_hardware_id(id.as_str());
            if number.is_some() {
                proof {
                    lemma_first_some(named, i as int);
                }
                return number;
            }
        }
        i += 1;
    }
    proof {
        lemma_first_some(named, i as int);
    }
    None
}

/// The class, subclass and protocol of a node, from its compatible IDs; `None` for a node without
/// the property.
pub fn get_interface_class(compatible_ids: &Option<IdList>) -> (class: Option<(u8, u8, u8)>)
    ensures
        class == interface_class(*compatible_ids),
{
    let ids: &IdList = match compatible_ids {
        Some(ids) => ids,
        None => return None,
    };
    let ghost named = ids@.map_values(|entry: Option<String>| entry_class(entry));
    let mut i: usize = 0;
    while i < ids.len()
        invariant
            i <= ids.len(),
            *compatible_ids == Some(*ids),
            named == ids@.map_values(|entry: Option<String>| entry_class(entry)),
            forall|j: int| 0 <= j < i ==> named[j] is None,
        decreases ids.len() - i,
    {
        if let Some(id) = &ids[i] {
            let class: Option<(u8, u8, u8)> = parse_compatible_id(id.as_str());
            if class.is_some() {
                proof {
                    lemma_first_some(named, i as int);
                }
                return class;
            }
        }
        i += 1;
    }
    proof {
        lemma_first_some(named, i as int);
    }
    None
}

/// A child of a composite device.
#[derive(Debug)]
pub struct ChildNode {
    /// The node.
    pub devinst: DevInst,
    /// Its hardware IDs; `None` where it has no such property.
    pub hardware_ids: Option<IdList>,
}

/// The child at `k` has an interface number, of at most `interface`.
pub open spec fn is_candidate(children: Seq<ChildNode>, interface: u8, k: int) -> bool {
    &&& 0 <= k < children.len()
    &&& interface_number(children[k].hardware_ids) matches Some(number) && number <= interface
}

/// The child at `k` has the highest interface number of at most `interface`, and is the last that
/// has it.
pub open spec fn is_usbccgp_child(children: Seq<ChildNode>, interface: u8, k: int) -> bool {
    &&& is_candidate(children, interface, k)
    &&& forall|j: int| #[trigger]
        is_candidate(children, interface, j) ==> {
            let other = interface_number(children[j].hardware_ids)->0;
            let best = interface_number(children[k].hardware_ids)->0;
            &&& other <= best
            &&& j > k ==> other < best
        }
}

/// Find the child PDO of a USBCCGP device for an interface.
///
/// To handle the case when multiple interfaces are represented by one PDO (e.g.
/// with interface association descriptors), this returns the highest-numbered
/// interface less than or equal to the target interface.
///
/// Returns the discovered interface number and DevInst.
pub fn find_usbccgp_child(children: &[ChildNode], interface: u8) -> (found: Option<(u8, DevInst)>)
    ensures
        match found {
            Some((number, devinst)) => exists|k: int|
                #![trigger is_usbccgp_child(children@, interface, k)]
                {
                    &&& is_usbccgp_child(children@, interface, k)
                    &&& interface_number(children@[k].hardware_ids) == Some(number)
                    &&& children@[k].devinst == devinst
                },
            None => forall|k: int| !is_candidate(children@, interface, k),
        },
        found is None ==> forall|k: int|
            0 <= k < children@.len() ==> (interface_number(
                (#[trigger] children@[k]).hardware_ids,
            ) matches Some(number) ==> number > interface),
{
    let mut found: Option<(u8, DevInst)> = None;
    let ghost mut best: int = 0;
    let mut i: usize = 0;
    while i < children.len()
        invariant
            i <= children.len(),
            match found {
                Some((number, devinst)) => {
                    &&& 0 <= best < i
                    &&& is_candidate(children@, interface, best)
                    &&& interface_number(children@[best].hardware_ids) == Some(number)
                    &&& children@[best].devinst == devinst
                    &&& forall|j: int|
                        0 <= j < i && #[trigger] is_candidate(children@, interface, j) ==> {
                            let other = interface_number(children@[j].hardware_ids)->0;
                            &&& other <= number
                            &&& j > best ==> other < number
                        }
                },
                None => forall|j: int| 0 <= j < i ==> !is_candidate(children@, interface, j),
            },
        decreases children.len() - i,
    {
        if let Some(number) = get_interface_number(&children[i].hardware_ids) {
            if number <= interface {
                let better: bool = match found {
                    Some((highest, _)) => highest <= number,
                    None => true,
                };
                if better {
                    found = Some((number, children[i].devinst));
                    proof {
                        best = i as int;
                    }
                }
            }
        }
        i += 1;
    }
    assert(found is Some ==> is_usbccgp_child(children@, interface, best));
    assert(found is None ==> forall|k: int|
        0 <= k < children@.len() ==> (interface_number(
            (#[trigger] children@[k]).hardware_ids,
        ) matches Some(number) ==> number > interface)) by {
        if found is None {
            assert forall|k: int| 0 <= k < children@.len() implies (interface_number(
                (#[trigger] children@[k]).hardware_ids,
            ) matches Some(number) ==> number > interface) by {
                assert(!is_candidate(children@, interface, k));
            }
        }
    }
    found
}

/// The child that is found for an interface is the only one that can be.
pub proof fn law_usbccgp_child_is_one(children: Seq<ChildNode>, interface: u8, a: int, b: int)
    requires
        is_usbccgp_child(children, interface, a),
        is_usbccgp_child(children, interface, b),
    ensures
        a == b,
{
    assert(is_candidate(children, interface, a));
    assert(is_candidate(children, interface, b));
}

/// Where some child has the very interface number that is looked for, the child that is found has
/// it.
pub proof fn law_usbccgp_child_exact(children: Seq<ChildNode>, interface: u8, k: int, found: int)
    requires
        0 <= k < children.len(),
        interface_number(children[k].hardware_ids) == Some(interface),
        is_usbccgp_child(children, interface, found),
    ensures
        interface_number(children[found].hardware_ids) == Some(interface),
{
    assert(is_candidate(children, interface, k));
}

/// A child that is found for an interface, or one with a higher number, is found for every later
/// interface.
pub proof fn law_usbccgp_child_grows(
    children: Seq<ChildNode>,
    interface: u8,
    later: u8,
    found: int,
) -> (found_later: int)
    requires
        interface <= later,
        is_usbccgp_child(children, interface, found),
    ensures
        is_usbccgp_child(children, later, found_later),
        interface_number(children[found].hardware_ids)->0 <= interface_number(
            children[found_later].hardware_ids,
        )->0,
{
    let best = lemma_best_candidate(children, later, children.len() as int, found);
    assert(is_candidate(children, later, found));
    best
}

/// Among the first `n` children, of which `some` is a candidate, one is the best.
proof fn lemma_best_candidate(
    children: Seq<ChildNode>,
    interface: u8,
    n: int,
    some: int,
) -> (best: int)
    requires
        some < n <= children.len(),
        is_candidate(children, interface, some),
    ensures
        best < n,
        is_candidate(children, interface, best),
        forall|j: int|
            j < n && #[trigger] is_candidate(children, interface, j) ==> {
                let other = interface_number(children[j].hardware_ids)->0;
                let highest = interface_number(children[best].hardware_ids)->0;
                &&& other <= highest
                &&& j > best ==> other < highest
            },
    decreases n,
{
    let last = n - 1;
    if some < last {
        let best = lemma_best_candidate(children, interface, last, some);
        if is_candidate(children, interface, last) && interface_number(
            children[best].hardware_ids,
        )->0 <= interface_number(children[last].hardware_ids)->0 {
            last
        } else {
            best
        }
    } else if exists|k: int| k < last && is_candidate(children, interface, k) {
        let other = choose|k: int| k < last && is_candidate(children, interface, k);
        let best = lemma_best_candidate(children, interface, last, other);
        if interface_number(children[best].hardware_ids)->0 <= interface_number(
            children[last].hardware_ids,
        )->0 {
            last
        } else {
            best
        }
    } else {
        last
    }
}

/// What stands behind the last `&MI_` of a hardware ID decides: two hexadecimal digits name the
/// interface whose number they write, a plus sign and one digit that digit, and anything else names
/// none.
pub proof fn law_hardware_id_is_two_digits(head: Seq<u8>, high: u8, low: u8, tail: Seq<u8>)
    requires
        !text::occurs(seq![high, low] + tail, encode_utf8("&MI_"@)),
    ensures
        hardware_id_interface(head + encode_utf8("&MI_"@) + seq![high, low] + tail) == (match (
            text::digit_value(high, 16),
            text::digit_value(low, 16),
        ) {
            (Some(h), Some(l)) => Some((16 * h + l) as u8),
            (None, Some(l)) if high == '+' as u8 => Some(l as u8),
            _ => None,
        }),
{
    let mark = encode_utf8("&MI_"@);
    lemma_behind_last_mark(head, seq![high, low] + tail);
    assert(head + mark + (seq![high, low] + tail) =~= (head + mark) + seq![high, low] + tail);
    assert(head + mark + seq![high, low] + tail =~= (head + mark) + seq![high, low] + tail);
    text::law_hex_byte(head + mark, high, low, tail);
}

/// A hardware ID with fewer than two bytes behind its last `&MI_` names no interface.
#[verifier::spinoff_prover]
pub proof fn law_hardware_id_cut_short(head: Seq<u8>, rest: Seq<u8>)
    requires
        rest.len() < 2,
    ensures
        hardware_id_interface(head + encode_utf8("&MI_"@) + rest) is None,
{
    lemma_mark_bytes();
    assert(!text::occurs(rest, encode_utf8("&MI_"@)));
    lemma_behind_last_mark(head, rest);
}

/// The bytes of `&MI_`.
proof fn lemma_mark_bytes()
    ensures
        encode_utf8("&MI_"@) == seq![0x26u8, 0x4d, 0x49, 0x5f],
{
    reveal_strlit("&MI_");
    is_ascii_chars_encode_utf8("&MI_"@);
    assert(encode_utf8("&MI_"@) =~= seq![0x26u8, 0x4d, 0x49, 0x5f]);
}

/// A mark whose first byte stands in it only once has its last occurrence where no other is behind
/// it.
proof fn lemma_last_mark(head: Seq<u8>, mark: Seq<u8>, rest: Seq<u8>)
    requires
        mark.len() > 0,
        forall|i: int| 0 < i < mark.len() ==> #[trigger] mark[i] != mark[0],
        !text::occurs(rest, mark),
    ensures
        text::is_last_occurrence(head + mark + rest, mark, head.len() as int),
{
    let id = head + mark + rest;
    let at = head.len() as int;
    let behind = at + mark.len();
    text::law_pattern_stands_where_put(head, mark, rest);
    assert forall|later: int| at < later implies !text::occurs_at(id, mark, later) by {
        if text::occurs_at(id, mark, later) {
            let stands = id.subrange(later, later + mark.len());
            assert(id[later] == stands[0]);
            if later < behind {
                assert(id[later] == mark[later - at]);
            } else {
                assert(rest.subrange(later - behind, later - behind + mark.len()) =~= stands);
                assert(text::occurs_at(rest, mark, later - behind));
            }
        }
    }
}

/// What is read of a hardware ID is what stands behind its last `&MI_`.
proof fn lemma_behind_last_mark(head: Seq<u8>, rest: Seq<u8>)
    requires
        !text::occurs(rest, encode_utf8("&MI_"@)),
    ensures
        hardware_id_interface(head + encode_utf8("&MI_"@) + rest) == text::hex_byte_at(
            head + encode_utf8("&MI_"@) + rest,
            (head + encode_utf8("&MI_"@)).len() as int,
        ),
{
    let mark = encode_utf8("&MI_"@);
    let id = head + mark + rest;
    let at = head.len() as int;
    assert(mark.len() == 4 && forall|i: int| 0 < i < mark.len() ==> #[trigger] mark[i] != mark[0])
        by {
        lemma_mark_bytes();
    }
    lemma_last_mark(head, mark, rest);
    let chosen = choose|at: int| text::is_last_occurrence(id, mark, at);
    lemma_last_occurrence_is_one(id, mark, at, chosen);
}

/// The interface number of a node is the one that the first of its hardware IDs with `&MI_` writes
/// behind it in two hexadecimal digits, whatever stands before and behind, and whatever the later
/// IDs are.
pub proof fn law_interface_number_of_list(
    ids: IdList,
    k: int,
    head: Seq<u8>,
    high: u8,
    low: u8,
    tail: Seq<u8>,
    value: u8,
    number: Option<u8>,
)
    requires
        0 <= k < ids@.len(),
        ids@[k] is Some,
        encode_utf8(ids@[k]->0@) == head + encode_utf8("&MI_"@) + seq![high, low] + tail,
        !text::occurs(tail, encode_utf8("&MI_"@)),
        text::digit_value(high, 16) == Some(value as int / 16),
        text::digit_value(low, 16) == Some(value as int % 16),
        forall|j: int|
            0 <= j < k ==> #[trigger] ids@[j] is None || !text::occurs(
                encode_utf8(ids@[j]->0@),
                encode_utf8("&MI_"@),
            ),
        call_ensures(get_interface_number, (&Some(ids),), number),
    ensures
        number == Some(value),
{
    let named = ids@.map_values(|entry: Option<String>| entry_interface(entry));
    law_hardware_id_reads_back(head, seq![high, low], value, tail);
    assert(named[k] == Some(value));
    assert forall|j: int| 0 <= j < k implies named[j] is None by {
        assert(ids@[j] is None || !text::occurs(
            encode_utf8(ids@[j]->0@),
            encode_utf8("&MI_"@),
        ));
    }
    lemma_first_some(named, k);
}

/// A node none of whose hardware IDs holds `&MI_`, or that has no such property, has no interface
/// number.
pub proof fn law_no_interface_number(
    ids: IdList,
    number: Option<u8>,
    without: Option<u8>,
)
    requires
        forall|j: int|
            0 <= j < ids@.len() ==> #[trigger] ids@[j] is None || !text::occurs(
                encode_utf8(ids@[j]->0@),
                encode_utf8("&MI_"@),
            ),
        call_ensures(get_interface_number, (&Some(ids),), number),
        call_ensures(get_interface_number, (&None::<IdList>,), without),
    ensures
        number is None,
        without is None,
{
    let named = ids@.map_values(|entry: Option<String>| entry_interface(entry));
    assert forall|j: int| 0 <= j < named.len() implies named[j] is None by {
        assert(ids@[j] is None || !text::occurs(
            encode_utf8(ids@[j]->0@),
            encode_utf8("&MI_"@),
        ));
    }
    lemma_first_some(named, ids@.len() as int);
}

/// Of two lists one behind the other, the first value of the first list counts, else that of the
/// second.
proof fn lemma_first_some_append<T>(a: Seq<Option<T>>, b: Seq<Option<T>>)
    ensures
        first_some(a + b) == (if first_some(a) is Some {
            first_some(a)
        } else {
            first_some(b)
        }),
    decreases a.len(),
{
    if a.len() == 0 {
        assert(a + b =~= b);
    } else {
        assert((a + b).skip(1) =~= a.skip(1) + b);
        lemma_first_some_append(a.skip(1), b);
    }
}

/// Of hardware IDs that are listed behind others, none counts where one of the others names an
/// interface, and else they count as they would alone. An ID alone counts for what it names.
pub proof fn law_interface_number_appends(
    front: IdList,
    back: IdList,
    whole: IdList,
    of_front: Option<u8>,
    of_back: Option<u8>,
    of_whole: Option<u8>,
    id: &str,
    named: Option<u8>,
)
    requires
        whole@ == front@ + back@,
        call_ensures(get_interface_number, (&Some(front),), of_front),
        call_ensures(get_interface_number, (&Some(back),), of_back),
        call_ensures(get_interface_number, (&Some(whole),), of_whole),
        call_ensures(parse_hardware_id, (id,), named),
    ensures
        of_front is Some ==> of_whole == of_front,
        of_front is None ==> of_whole == of_back,
        front@.len() == 1 && front@[0] is Some && front@[0]->0@ == id@ ==> of_front == named,
        front@.len() == 1 && front@[0] is None ==> of_front is None,
        front@.len() == 0 ==> of_front is None,
{
    let f = |entry: Option<String>| entry_interface(entry);
    assert(whole@.map_values(f) =~= front@.map_values(f) + back@.map_values(f));
    lemma_first_some_append(front@.map_values(f), back@.map_values(f));
    reveal_with_fuel(first_some, 2);
}

/// The class of a node is the one that the first of its compatible IDs writes that begins with
/// `USB\Class_`, where that ID is of the full form, whatever stands behind in it and whatever the
/// later IDs are.
pub proof fn law_interface_class_of_list(
    ids: IdList,
    k: int,
    class_digits: Seq<u8>,
    class: u8,
    subclass_digits: Seq<u8>,
    subclass: u8,
    protocol_digits: Seq<u8>,
    protocol: u8,
    tail: Seq<u8>,
    found: Option<(u8, u8, u8)>,
)
    requires
        0 <= k < ids@.len(),
        ids@[k] is Some,
        encode_utf8(ids@[k]->0@) == encode_utf8("USB\\Class_"@) + class_digits + encode_utf8(
            "&SubClass_"@,
        ) + subclass_digits + encode_utf8("&Prot_"@) + protocol_digits + tail,
        writes_byte(class_digits, class),
        writes_byte(subclass_digits, subclass),
        writes_byte(protocol_digits, protocol),
        forall|j: int|
            0 <= j < k ==> #[trigger] ids@[j] is None || !text::occurs_at(
                encode_utf8(ids@[j]->0@),
                encode_utf8("USB\\Class_"@),
                0,
            ),
        call_ensures(get_interface_class, (&Some(ids),), found),
    ensures
        found == Some((class, subclass, protocol)),
{
    let named = ids@.map_values(|entry: Option<String>| entry_class(entry));
    law_compatible_id_reads_back(
        class_digits,
        class,
        subclass_digits,
        subclass,
        protocol_digits,
        protocol,
        tail,
    );
    assert(named[k] == Some((class, subclass, protocol)));
    assert forall|j: int| 0 <= j < k implies named[j] is None by {
        assert(ids@[j] is None || !text::occurs_at(
            encode_utf8(ids@[j]->0@),
            encode_utf8("USB\\Class_"@),
            0,
        ));
    }
    lemma_first_some(named, k);
}

/// Of compatible IDs that are listed behind others, none counts where one of the others names a
/// class, and else they count as they would alone. An ID alone counts for what it names; a node
/// without the property has no class.
pub proof fn law_interface_class_appends(
    front: IdList,
    back: IdList,
    whole: IdList,
    of_front: Option<(u8, u8, u8)>,
    of_back: Option<(u8, u8, u8)>,
    of_whole: Option<(u8, u8, u8)>,
    without: Option<(u8, u8, u8)>,
    id: &str,
    named: Option<(u8, u8, u8)>,
)
    requires
        whole@ == front@ + back@,
        call_ensures(get_interface_class, (&Some(front),), of_front),
        call_ensures(get_interface_class, (&Some(back),), of_back),
        call_ensures(get_interface_class, (&Some(whole),), of_whole),
        call_ensures(get_interface_class, (&None::<IdList>,), without),
        call_ensures(parse_compatible_id, (id,), named),
    ensures
        of_front is Some ==> of_whole == of_front,
        of_front is None ==> of_whole == of_back,
        front@.len() == 1 && front@[0] is Some && front@[0]->0@ == id@ ==> of_front == named,
        front@.len() == 1 && front@[0] is None ==> of_front is None,
        front@.len() == 0 ==> of_front is None,
        without is None,
{
    let f = |entry: Option<String>| entry_class(entry);
    assert(whole@.map_values(f) =~= front@.map_values(f) + back@.map_values(f));
    lemma_first_some_append(front@.map_values(f), back@.map_values(f));
    reveal_with_fuel(first_some, 2);
}

/// A compatible ID that names a class is of the full form: `USB\Class_`, `&SubClass_` and `&Prot_`
/// stand in it from bytes 0, 12 and 24 on, and a hexadecimal byte behind each of them is the class,
/// the subclass and the protocol.
pub proof fn law_compatible_id_has_full_form(id: Seq<u8>)
    ensures
        compatible_id_class(id) is Some <==> {
            &&& text::occurs_at(id, encode_utf8("USB\\Class_"@), 0)
            &&& text::hex_byte_at(id, 10) is Some
            &&& text::occurs_at(id, encode_utf8("&SubClass_"@), 12)
            &&& text::hex_byte_at(id, 22) is Some
            &&& text::occurs_at(id, encode_utf8("&Prot_"@), 24)
            &&& text::hex_byte_at(id, 30) is Some
        },
        compatible_id_class(id) matches Some((class, subclass, protocol)) ==> {
            &&& text::hex_byte_at(id, 10) == Some(class)
            &&& text::hex_byte_at(id, 22) == Some(subclass)
            &&& text::hex_byte_at(id, 30) == Some(protocol)
        },
{
    reveal_strlit("USB\\Class_");
    reveal_strlit("&SubClass_");
    reveal_strlit("&Prot_");
    is_ascii_chars_encode_utf8("USB\\Class_"@);
    is_ascii_chars_encode_utf8("&SubClass_"@);
    is_ascii_chars_encode_utf8("&Prot_"@);
}

/// The child that is found for an interface has a number of at most that of the interface, and no
/// other child has a number between the two; of children with the same number it is the last. A
/// child is found as soon as one has a number of at most that of the interface.
pub proof fn law_child_has_highest_number(
    children: &[ChildNode],
    interface: u8,
    found: Option<(u8, DevInst)>,
    k: int,
    number: u8,
)
    requires
        0 <= k < children@.len(),
        interface_number(children@[k].hardware_ids) == Some(number),
        number <= interface,
        call_ensures(find_usbccgp_child, (children, interface), found),
    ensures
        match found {
            Some((highest, devinst)) => {
                &&& number <= highest <= interface
                &&& exists|best: int|
                    #![trigger children@[best]]
                    {
                        &&& 0 <= best < children@.len()
                        &&& children@[best].devinst == devinst
                        &&& interface_number(children@[best].hardware_ids) == Some(highest)
                        &&& number == highest ==> k <= best
                    }
            },
            None => false,
        },
{
    assert(is_candidate(children@, interface, k));
    if let Some((highest, devinst)) = found {
        let best = choose|best: int|
            #![trigger is_usbccgp_child(children@, interface, best)]
            {
                &&& is_usbccgp_child(children@, interface, best)
                &&& interface_number(children@[best].hardware_ids) == Some(highest)
                &&& children@[best].devinst == devinst
            };
        assert(is_usbccgp_child(children@, interface, best));
        assert(is_candidate(children@, interface, best));
        assert(k > best ==> number < highest);
        assert(0 <= best < children@.len() && children@[best].devinst == devinst);
    }
}

/// No child is found for an interface where every child that has a number has a higher one.
pub proof fn law_no_child(children: &[ChildNode], interface: u8, found: Option<(u8, DevInst)>)
    requires
        forall|k: int|
            0 <= k < children@.len() ==> (interface_number(
                (#[trigger] children@[k]).hardware_ids,
            ) matches Some(number) ==> number > interface),
        call_ensures(find_usbccgp_child, (children, interface), found),
    ensures
        found is None,
{
    if let Some((number, devinst)) = found {
        let best = choose|best: int|
            #![trigger is_usbccgp_child(children@, interface, best)]
            {
                &&& is_usbccgp_child(children@, interface, best)
                &&& interface_number(children@[best].hardware_ids) == Some(number)
                &&& children@[best].devinst == devinst
            };
        assert(is_candidate(children@, interface, best));
        assert(0 <= best < children@.len());
        assert(children@[best].devinst == devinst);
    }
}

} // verus!
