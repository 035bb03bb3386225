//! The number of the hub port that a device is plugged into, from where Windows says it is.
use vstd::prelude::*;
use vstd::utf8::*;

use crate::text;
use crate::windows_winusb::ids;

verus! {

/// What a node of the device tree says of its place; `None` where it has no such property.
#[derive(Debug)]
pub struct Location {
    /// Its location information, such as `Port_#0002.Hub_#000D`.
    pub info: Option<String>,
    /// Its location paths, such as
    /// `PCIROOT(B2)#PCI(0300)#PCI(0000)#USBROOT(0)#USB(1)#USB(2)#USBMI(3)`.
    pub paths: Option<Vec<String>>,
    /// Its address on the bus.
    pub address: Option<u32>,
}

/// The bytes of a location information can be cut where its parts meet: after the sixth, and
/// after the tenth where the first six are `Port_#`.
pub open spec fn info_is_readable(info: Seq<u8>) -> bool {
    &&& is_char_boundary(info, 6)
    &&& text::occurs_at(info, encode_utf8("Port_#"@), 0) ==> is_char_boundary(info, 10)
}

/// The port number that a location information names: the four bytes after `Port_#`.
pub open spec fn info_port(info: Seq<u8>) -> Option<u32> {
    if text::occurs_at(info, encode_utf8("Port_#"@), 0) && info.len() >= 10 {
        match text::number(info.subrange(6, 10), 10, u32::MAX as int) {
            Some(port) => Some(port as u32),
            None => None,
        }
    } else {
        None
    }
}

/// The bytes from `start` up to `end` are a segment of a location path, between two `#` or the
/// ends of the path.
pub open spec fn is_segment(path: Seq<u8>, start: int, end: int) -> bool {
    &&& 0 <= start <= end <= path.len()
    &&& start == 0 || path[start - 1] == 0x23
    &&& end == path.len() || path[end] == 0x23
    &&& forall|i: int| start <= i < end ==> #[trigger] path[i] != 0x23
}

/// The bytes from `start` up to `end` are a segment of a location path that reads `USB(x)`.
pub open spec fn reads_usb(path: Seq<u8>, start: int, end: int) -> bool {
    &&& is_segment(path, start, end)
    &&& text::occurs_at(path, encode_utf8("USB("@), start)
    &&& start + 4 < end
    &&& path[end - 1] == 0x29
}

/// The last segment of a location path that reads `USB(x)`.
pub open spec fn is_last_usb(path: Seq<u8>, start: int, end: int) -> bool {
    &&& reads_usb(path, start, end)
    &&& forall|s: int, e: int| reads_usb(path, s, e) ==> s <= start
}

/// The port number that a location path names: the `x` of its last segment that reads `USB(x)`,
/// where that is a number.
pub open spec fn path_port(path: Seq<u8>) -> Option<u32> {
    if exists|start: int, end: int| is_last_usb(path, start, end) {
        let (start, end) = choose|start: int, end: int| is_last_usb(path, start, end);
        match text::number(path.subrange(start + 4, end - 1), 10, u32::MAX as int) {
            Some(port) => Some(port as u32),
            None => None,
        }
    } else {
        None
    }
}

/// The port numbers that location paths name, one for each.
pub open spec fn path_ports(paths: Seq<String>) -> Seq<Option<u32>> {
    paths.map_values(|path: String| path_port(encode_utf8(path@)))
}

impl Location {
    /// The port number that the location information names.
    pub open spec fn named_by_info(&self) -> Option<u32> {
        match self.info {
            Some(info) => info_port(encode_utf8(info@)),
            None => None,
        }
    }

    /// The port number that the first of the location paths names that names any.
    pub open spec fn named_by_paths(&self) -> Option<u32> {
        match self.paths {
            Some(paths) => ids::first_some(path_ports(paths@)),
            None => None,
        }
    }

    /// The port number: by the location information, else by the location paths, else the address.
    pub open spec fn port_number(&self) -> Option<u32> {
        match self.named_by_info() {
            Some(port) => Some(port),
            None => match self.named_by_paths() {
                Some(port) => Some(port),
                None => self.address,
            },
        }
    }

    /// The location information, where there is one, can be cut where its parts meet.
    pub open spec fn readable(&self) -> bool {
        self.info matches Some(info) ==> info_is_readable(encode_utf8(info@))
    }
}

/// There is only one last segment that reads `USB(x)`.
proof fn lemma_last_usb_is_one(path: Seq<u8>, s1: int, e1: int, s2: int, e2: int)
    requires
        is_last_usb(path, s1, e1),
        is_last_usb(path, s2, e2),
    ensures
        s1 == s2,
        e1 == e2,
{
    if e1 < e2 {
        assert(path[e1] == 0x23);
    }
    if e2 < e1 {
        assert(path[e2] == 0x23);
    }
}

/// Of two segments that are not the same, one ends before the other starts.
proof fn lemma_segments_are_apart(path: Seq<u8>, s1: int, e1: int, s2: int, e2: int)
    requires
        is_segment(path, s1, e1),
        is_segment(path, s2, e2),
        (s1, e1) != (s2, e2),
    ensures
        e1 < s2 || e2 < s1,
{
    if s1 == s2 {
        if e1 < e2 {
            assert(path[e1] == 0x23);
        } else {
            assert(path[e2] == 0x23);
        }
    } else if s1 < s2 {
        assert(path[s2 - 1] == 0x23);
    } else {
        assert(path[s1 - 1] == 0x23);
    }
}

/// The last segment of a location path that reads `USB(x)`.
fn find_last_usb(path: &[u8]) -> (found: Option<(usize, usize)>)
    ensures
        match found {
            Some((start, end)) => is_last_usb(path@, start as int, end as int),
            None => forall|start: int, end: int| !is_last_usb(path@, start, end),
        },
{
    let mark: &[u8] = "USB(".as_bytes();
    let mut end: usize = path.len();
    loop
        invariant
            mark@ == encode_utf8("USB("@),
            end <= path.len(),
            end == path.len() || path@[end as int] == 0x23,
            forall|s: int, e: int| reads_usb(path@, s, e) ==> e <= end,
        decreases end,
    {
        let mut start: usize = end;
        while start > 0 && path[start - 1] != 0x23
            invariant
                start <= end <= path.len(),
                forall|i: int| start <= i < end ==> #[trigger] path@[i] != 0x23,
            decreases start,
        {
            start -= 1;
        }
        assert(is_segment(path@, start as int, end as int));
        proof {
            assert forall|s: int, e: int|
                reads_usb(path@, s, e) && (s, e) != (start as int, end as int) implies e < start by {
                lemma_segments_are_apart(path@, s, e, start as int, end as int);
            }
        }
        if end - start > 4 && path[end - 1] == 0x29 && text::stands_at(path, mark, start) {
            return Some((start, end));
        }
        if start == 0 {
            return None;
        }
        end = start - 1;
    }
}

/// Whether a location information can be read.
fn check_info(info: &str) -> (readable: bool)
    ensures
        readable == info_is_readable(encode_utf8(info@)),
{
    if !info.is_char_boundary(6) {
        return false;
    }
    !text::stands_at(info.as_bytes(), "Port_#".as_bytes(), 0) || info.is_char_boundary(10)
}

/// The port number that a location information names.
fn read_info(info: &str) -> (port: Option<u32>)
    requires
        info_is_readable(encode_utf8(info@)),
    ensures
        port == info_port(encode_utf8(info@)),
{
    let bytes: &[u8] = info.as_bytes();
    if text::stands_at(bytes, "Port_#".as_bytes(), 0) {
        assert(bytes@.len() >= 10) by {
            encode_utf8_valid_utf8(info@);
        }
        text::parse_number(bytes, 6, 10, 10, u32::MAX)
    } else {
        None
    }
}

/// The port number that a location path names.
fn read_path(path: &str) -> (port: Option<u32>)
    ensures
        port == path_port(encode_utf8(path@)),
{
    let bytes: &[u8] = path.as_bytes();
    match find_last_usb(bytes) {
        None => None,
        Some((start, end)) => {
            proof {
                let (s, e) = choose|s: int, e: int| is_last_usb(bytes@, s, e);
                lemma_last_usb_is_one(bytes@, s, e, start as int, end as int);
            }
            text::parse_number(bytes, start + 4, end - 1, 10, u32::MAX)
        },
    }
}

/// Whether the location information, where there is one, can be cut where its parts meet.
pub fn is_readable(location: &Location) -> (readable: bool)
    ensures
        readable == location.readable(),
{
    match &location.info {
        Some(info) => check_info(info.as_str()),
        None => true,
    }
}

/// The number of the port that a device is plugged into.
pub fn get_port_number(location: &Location) -> (port: Option<u32>)
    requires
        location.readable(),
    ensures
        port == location.port_number(),
{
    if let Some(info) = &location.info {
        let port: Option<u32> = read_info(info.as_str());
        if port.is_some() {
            return port;
        }
    }
    if let Some(paths) = &location.paths {
        let ghost named = path_ports(paths@);
        let mut i: usize = 0;
        while i < paths.len()
            invariant
                i <= paths.len(),
                location.paths == Some(*paths),
                location.named_by_info() is None,
                named == path_ports(paths@),
                forall|j: int| 0 <= j < i ==> named[j] is None,
            decreases paths.len() - i,
        {
            let port: Option<u32> = read_path(paths[i].as_str());
            if port.is_some() {
                proof {
                    ids::lemma_first_some(named, i as int);
                }
                return port;
            }
            i += 1;
        }
        proof {
            ids::lemma_first_some(named, i as int);
        }
    }
    location.address
}

/// A location information names the port whose number it writes in the four digits after
/// `Port_#`, whatever stands behind.
pub proof fn law_location_info_reads_back(digits: Seq<u8>, port: int, tail: Seq<u8>)
    requires
        digits.len() == 4,
        text::digits_value(digits, 10) == Some(port),
    ensures
        info_port(encode_utf8("Port_#"@) + digits + tail) == Some(port as u32),
        0 <= port <= 9999,
{
    let mark = encode_utf8("Port_#"@);
    let info = mark + digits + tail;
    reveal_strlit("Port_#");
    is_ascii_chars_encode_utf8("Port_#"@);
    assert(info.subrange(0, 6) =~= mark);
    assert(info.subrange(6, 10) =~= digits);
    reveal_with_fuel(text::digits_value, 5);
    assert(digits.drop_last().drop_last().drop_last().last() == digits[0]);
    assert(text::without_plus(digits) =~= digits);
}

/// Digits are neither `#` nor a plus sign.
proof fn lemma_digits(digits: Seq<u8>, i: int)
    requires
        text::digits_value(digits, 10) is Some,
        0 <= i < digits.len(),
    ensures
        digits[i] != 0x23,
        digits[i] != 0x2b,
    decreases digits.len(),
{
    if i < digits.len() - 1 {
        lemma_digits(digits.drop_last(), i);
    }
}

/// A location path names the port whose number it writes in its last segment that reads `USB(x)`,
/// where that segment is `USB(`, digits and `)`: whatever segments stand before it, and whatever
/// segments that do not read `USB(x)` stand behind it.
pub proof fn law_location_path_reads_back(head: Seq<u8>, digits: Seq<u8>, port: int, tail: Seq<u8>)
    requires
        head.len() == 0 || head.last() == 0x23,
        digits.len() > 0,
        text::digits_value(digits, 10) == Some(port),
        port <= u32::MAX,
        tail.len() == 0 || tail[0] == 0x23,
        forall|s: int, e: int| !reads_usb(tail, s, e),
    ensures
        path_port(head + encode_utf8("USB("@) + digits + seq![0x29u8] + tail) == Some(port as u32),
{
    let mark = encode_utf8("USB("@);
    let path = head + mark + digits + seq![0x29u8] + tail;
    reveal_strlit("USB(");
    is_ascii_chars_encode_utf8("USB("@);
    let start = head.len() as int;
    let end = start + 4 + digits.len() + 1;
    assert(path.subrange(start, start + 4) =~= mark);
    assert(text::occurs_at(path, mark, start));
    assert forall|i: int| start <= i < end implies #[trigger] path[i] != 0x23 by {
        if start + 4 <= i < end - 1 {
            lemma_digits(digits, i - start - 4);
        }
    }
    assert(reads_usb(path, start, end));
    assert forall|s: int, e: int| reads_usb(path, s, e) implies s <= start by {
        if s > start {
            lemma_segments_are_apart(path, s, e, start, end);
            assert(tail.subrange(s - end, s - end + 4) =~= path.subrange(s, s + 4));
            assert(forall|i: int| 0 <= i < tail.len() ==> #[trigger] tail[i] == path[end + i]);
            assert(reads_usb(tail, s - end, e - end));
        }
    }
    assert(is_last_usb(path, start, end));
    let (s, e) = choose|s: int, e: int| is_last_usb(path, s, e);
    lemma_last_usb_is_one(path, s, e, start, end);
    assert(path.subrange(start + 4, end - 1) =~= digits);
    lemma_digits(digits, 0);
}

/// A node whose location information names a port is on that port, whatever its location paths
/// and its address say.
pub proof fn law_location_info_comes_first(a: Location, b: Location)
    requires
        a.info == b.info,
        a.named_by_info() is Some,
    ensures
        a.port_number() == b.port_number(),
        a.port_number() == a.named_by_info(),
{
}

/// A node whose location information names no port, but one of whose location paths does, is on
/// the port that the first such path names, whatever its address is.
pub proof fn law_location_paths_come_before_address(location: Location, paths: Vec<String>, k: int)
    requires
        location.named_by_info() is None,
        location.paths == Some(paths),
        0 <= k < paths@.len(),
        path_port(encode_utf8(paths@[k]@)) is Some,
        forall|j: int| 0 <= j < k ==> path_port(encode_utf8(#[trigger] paths@[j]@)) is None,
    ensures
        location.port_number() == path_port(encode_utf8(paths@[k]@)),
{
    ids::lemma_first_some(path_ports(paths@), k);
}

/// A location information that begins with `Port_#` names the number that the four bytes behind it
/// write; any other names none.
pub proof fn law_location_info_is_four_bytes(four: Seq<u8>, tail: Seq<u8>, other: Seq<u8>)
    requires
        four.len() == 4,
        !text::occurs_at(other, encode_utf8("Port_#"@), 0),
    ensures
        info_port(encode_utf8("Port_#"@) + four + tail) == (match text::number(
            four,
            10,
            0xffff_ffff,
        ) {
            Some(port) => Some(port as u32),
            None => None,
        }),
        info_port(other) is None,
{
    let mark = encode_utf8("Port_#"@);
    let info = mark + four + tail;
    reveal_strlit("Port_#");
    is_ascii_chars_encode_utf8("Port_#"@);
    assert(info.subrange(0, 6) =~= mark);
    assert(info.subrange(6, 10) =~= four);
}

/// A location path whose last segment is `USB(`, some text and `)` names the number that the text
/// writes, and none where it writes none, whatever segments stand before.
pub proof fn law_last_usb_segment_counts(head: Seq<u8>, x: Seq<u8>)
    requires
        head.len() == 0 || head.last() == '#' as u8,
        !x.contains('#' as u8),
    ensures
        path_port(head + encode_utf8("USB("@) + x + seq![')' as u8]) == (match text::number(
            x,
            10,
            0xffff_ffff,
        ) {
            Some(port) => Some(port as u32),
            None => None,
        }),
{
    let mark = encode_utf8("USB("@);
    let path = head + mark + x + seq![')' as u8];
    reveal_strlit("USB(");
    is_ascii_chars_encode_utf8("USB("@);
    let start = head.len() as int;
    let end = path.len() as int;
    assert(path.subrange(start, start + 4) =~= mark);
    assert forall|i: int| start <= i < end implies #[trigger] path[i] != 0x23 by {
        if start + 4 <= i < end - 1 {
            assert(path[i] == x[i - start - 4]);
        }
    }
    assert(reads_usb(path, start, end));
    assert forall|s: int, e: int| reads_usb(path, s, e) implies s <= start by {
        if s > start {
            lemma_segments_are_apart(path, s, e, start, end);
        }
    }
    assert(is_last_usb(path, start, end));
    let (s, e) = choose|s: int, e: int| is_last_usb(path, s, e);
    lemma_last_usb_is_one(path, s, e, start, end);
    assert(path.subrange(start + 4, end - 1) =~= x);
}

/// A segment that does not begin with `USB(` or does not end with `)` changes nothing behind other
/// segments, and alone it names no port.
pub proof fn law_other_segments_do_not_count(path: Seq<u8>, segment: Seq<u8>)
    requires
        !segment.contains('#' as u8),
        !{
            &&& segment.len() > 4
            &&& segment[0] == 'U' as u8
            &&& segment[1] == 'S' as u8
            &&& segment[2] == 'B' as u8
            &&& segment[3] == '(' as u8
            &&& segment.last() == ')' as u8
        },
    ensures
        path_port(path + seq!['#' as u8] + segment) == path_port(path),
        path_port(segment) is None,
{
    let mark = encode_utf8("USB("@);
    reveal_strlit("USB(");
    is_ascii_chars_encode_utf8("USB("@);
    assert(mark =~= seq!['U' as u8, 'S' as u8, 'B' as u8, '(' as u8]);
    let longer = path + seq!['#' as u8] + segment;
    let n = path.len() as int;
    assert(forall|i: int| 0 <= i < segment.len() ==> #[trigger] segment[i] == longer[n + 1 + i]);
    assert(forall|i: int| 0 <= i < n ==> #[trigger] path[i] == longer[i]);
    assert(longer[n] == 0x23);
    assert forall|i: int| 0 <= i < segment.len() implies #[trigger] segment[i] != 0x23 by {}
    assert(is_segment(longer, n + 1, longer.len() as int)) by {
        assert forall|i: int| n + 1 <= i < longer.len() implies #[trigger] longer[i] != 0x23 by {
            assert(segment[i - n - 1] != 0x23);
        }
    }
    assert forall|s: int, e: int| reads_usb(longer, s, e) implies reads_usb(path, s, e) by {
        if (s, e) == (n + 1, longer.len() as int) {
            let begin = longer.subrange(s, s + 4);
            assert(begin[0] == longer[n + 1] && begin[1] == longer[n + 2] && begin[2] == longer[n
                + 3] && begin[3] == longer[n + 4]);
            assert(segment[0] == begin[0] && segment[1] == begin[1] && segment[2] == begin[2]
                && segment[3] == begin[3]);
            assert(segment.last() == longer[e - 1]);
            assert(false);
        }
        lemma_segments_are_apart(longer, s, e, n + 1, longer.len() as int);
        assert(longer.subrange(s, s + 4) =~= path.subrange(s, s + 4));
    }
    assert forall|s: int, e: int| reads_usb(path, s, e) implies reads_usb(longer, s, e) by {
        assert(longer.subrange(s, s + 4) =~= path.subrange(s, s + 4));
        assert forall|i: int| s <= i < e implies #[trigger] longer[i] != 0x23 by {
            assert(path[i] != 0x23);
        }
    }
    if exists|s: int, e: int| is_last_usb(path, s, e) {
        let (s, e) = choose|s: int, e: int| is_last_usb(path, s, e);
        assert(is_last_usb(longer, s, e));
        let (t, f) = choose|t: int, f: int| is_last_usb(longer, t, f);
        lemma_last_usb_is_one(longer, s, e, t, f);
        assert(longer.subrange(s + 4, e - 1) =~= path.subrange(s + 4, e - 1));
    } else if exists|s: int, e: int| is_last_usb(longer, s, e) {
        let (s, e) = choose|s: int, e: int| is_last_usb(longer, s, e);
        assert(is_last_usb(path, s, e));
    }
    if exists|s: int, e: int| is_last_usb(segment, s, e) {
        let (s, e) = choose|s: int, e: int| is_last_usb(segment, s, e);
        assert(s == 0) by {
            if s > 0 {
                assert(segment[s - 1] == 0x23);
            }
        }
        assert(e == segment.len()) by {
            if e < segment.len() {
                assert(segment[e] == 0x23);
            }
        }
        let begin = segment.subrange(0, 4);
        assert(begin[0] == segment[0] && begin[1] == segment[1] && begin[2] == segment[2]
            && begin[3] == segment[3]);
    }
}

/// The port of a device whose location information is `Port_#`, four digits and more is the number
/// that the digits write, whatever else the device says of its place.
pub proof fn law_port_number_by_info(
    location: Location,
    digits: Seq<u8>,
    value: int,
    tail: Seq<u8>,
    port: Option<u32>,
)
    requires
        location.info is Some,
        encode_utf8(location.info->0@) == encode_utf8("Port_#"@) + digits + tail,
        digits.len() == 4,
        text::digits_value(digits, 10) == Some(value),
        call_ensures(get_port_number, (&location,), port),
    ensures
        port == Some(value as u32),
        0 <= value <= 9999,
{
    law_location_info_reads_back(digits, value, tail);
}

/// The port of a device whose location information is missing or names none is the one that the
/// first of its location paths names that names any, whatever its address is. Where none of them
/// does, or there are none, it is its address, if it has one.
pub proof fn law_port_number_by_paths_or_address(
    location: Location,
    paths: Seq<String>,
    k: int,
    port: Option<u32>,
)
    requires
        location.info is Some ==> info_port(encode_utf8(location.info->0@)) is None,
        paths == (if location.paths is Some {
            location.paths->0@
        } else {
            Seq::empty()
        }),
        0 <= k <= paths.len(),
        forall|j: int| 0 <= j < k ==> path_port(encode_utf8((#[trigger] paths[j])@)) is None,
        call_ensures(get_port_number, (&location,), port),
    ensures
        k == paths.len() ==> port == location.address,
        k < paths.len() && path_port(encode_utf8(paths[k]@)) is Some ==> port == path_port(
            encode_utf8(paths[k]@),
        ),
{
    ids::lemma_first_some(path_ports(paths), k);
}

/// A location can be read where there is no location information, and exactly if the information
/// is at least six bytes long, ten where it begins with `Port_#`, and no character of it lies across
/// the end of these six and ten bytes.
pub proof fn law_location_is_readable(location: Location, info: Seq<u8>, readable: bool)
    requires
        location.info is Some ==> info == encode_utf8(location.info->0@),
        call_ensures(is_readable, (&location,), readable),
    ensures
        readable == location.readable(),
        location.info is None ==> readable,
        location.info is Some ==> (readable <==> {
            &&& info.len() >= 6
            &&& info.len() > 6 ==> !(0x80 <= info[6] <= 0xbf)
            &&& text::occurs_at(info, encode_utf8("Port_#"@), 0) ==> {
                &&& info.len() >= 10
                &&& info.len() > 10 ==> !(0x80 <= info[10] <= 0xbf)
            }
        }),
{
    if let Some(text) = location.info {
        encode_utf8_valid_utf8(text@);
        is_char_boundary_start_end_of_seq(info);
        if info.len() > 6 {
            is_char_boundary_iff_not_is_continuation_byte(info, 6);
        }
        if info.len() > 10 {
            is_char_boundary_iff_not_is_continuation_byte(info, 10);
        }
    }
}

} // verus!
