//! The place of a device in the topology of its bus: which bus it is on, and through which ports
//! it is reached.
//!
//! The walk goes from the device up to its root hub. It asks one question at a time of the node
//! that it stands on, and each answer decides what it asks next.
use std::collections::VecDeque;

use vstd::prelude::*;
use vstd::utf8::*;

use crate::text;

verus! {

/// The numbers of the buses, by the instance ID of the root hub of each.
#[derive(Debug)]
pub struct BusTable {
    ids: Vec<String>,
}

/// The contents of strings.
pub open spec fn contents(strings: Seq<String>) -> Seq<Seq<char>> {
    strings.map_values(|s: String| s@)
}

/// Root hubs are numbered from 1 in the order in which they are listed, as far as a byte goes;
/// one that is listed twice has its later number.
pub open spec fn numbered(ids: Seq<Seq<char>>) -> Map<Seq<char>, u8>
    decreases ids.len(),
{
    if ids.len() == 0 {
        Map::empty()
    } else {
        numbered(ids.drop_last()).insert(ids.last(), (ids.len() as int % 256) as u8)
    }
}

impl View for BusTable {
    type V = Map<Seq<char>, u8>;

    closed spec fn view(&self) -> Map<Seq<char>, u8> {
        numbered(contents(self.ids@))
    }
}

/// Where `id` is none of the strings behind position `n`, its number is the one among the first
/// `n`.
proof fn lemma_numbered_prefix(ids: Seq<Seq<char>>, n: int, id: Seq<char>)
    requires
        0 <= n <= ids.len(),
        forall|j: int| n <= j < ids.len() ==> ids[j] != id,
    ensures
        numbered(ids).contains_key(id) == numbered(ids.take(n)).contains_key(id),
        numbered(ids)[id] == numbered(ids.take(n))[id],
    decreases ids.len() - n,
{
    if n == ids.len() {
        assert(ids.take(n) =~= ids);
    } else {
        lemma_numbered_prefix(ids, n + 1, id);
        assert(ids.take(n + 1).drop_last() =~= ids.take(n));
        assert(ids.take(n + 1).last() == ids[n]);
    }
}

/// A root hub has the number of the last place where it is listed, counted from 1, as far as a
/// byte goes.
pub proof fn law_bus_number(ids: Seq<Seq<char>>, i: int)
    requires
        0 <= i < ids.len(),
        forall|j: int| i < j < ids.len() ==> ids[j] != ids[i],
    ensures
        numbered(ids).contains_key(ids[i]),
        numbered(ids)[ids[i]] == (i + 1) % 256,
{
    lemma_numbered_prefix(ids, i + 1, ids[i]);
    assert(ids.take(i + 1).last() == ids[i]);
}

/// A node that is not listed has no number.
pub proof fn law_bus_number_of_none(ids: Seq<Seq<char>>, id: Seq<char>)
    requires
        !ids.contains(id),
    ensures
        !numbered(ids).contains_key(id),
{
    lemma_numbered_prefix(ids, 0, id);
    assert(ids.take(0) =~= Seq::empty());
}

impl BusTable {
    /// Numbers the root hubs, in the order in which they are listed.
    pub fn new(ids: Vec<String>) -> (table: BusTable)
        ensures
            table@ == numbered(contents(ids@)),
    {
        BusTable { ids }
    }

    /// The number of the bus whose root hub has this instance ID.
    pub fn get(&self, id: &String) -> (number: Option<u8>)
        ensures
            match number {
                Some(number) => self@.contains_key(id@) && self@[id@] == number,
                None => !self@.contains_key(id@),
            },
    {
        let ghost ids = contents(self.ids@);
        let mut n: usize = self.ids.len();
        while n > 0
            invariant
                n <= self.ids.len(),
                ids == contents(self.ids@),
                forall|j: int| n <= j < ids.len() ==> ids[j] != id@,
            decreases n,
        {
            if self.ids[n - 1] == *id {
                proof {
                    law_bus_number(ids, n - 1);
                }
                return Some((n % 256) as u8);
            }
            n -= 1;
        }
        proof {
            law_bus_number_of_none(ids, id@);
        }
        None
    }
}

/// What the walk asks next, of the node that it stands on.
#[derive(Clone, Copy, Debug, PartialEq, Eq, Structural)]
pub enum Question {
    /// The port number of the device itself.
    OwnPortNumber,
    /// Its parent, to go on from there.
    Parent,
    /// The name of the bus driver that listed it.
    EnumeratorName,
    /// Its port number.
    PortNumber,
    /// Its instance ID.
    InstanceId,
    /// Nothing: the walk is over.
    Done,
}

/// An answer; `None` where the node does not have what was asked for.
#[derive(Debug)]
pub enum Answer {
    /// A port number.
    PortNumber(Option<u32>),
    /// Whether there is a parent. The walk then stands on it.
    Parent(bool),
    /// The name of a bus driver.
    EnumeratorName(Option<String>),
    /// An instance ID.
    InstanceId(Option<String>),
}

impl Question {
    /// Whether an answer is one to this question.
    pub open spec fn answered_by(self, answer: Answer) -> bool {
        match self {
            Question::OwnPortNumber => answer is PortNumber,
            Question::Parent => answer is Parent,
            Question::EnumeratorName => answer is EnumeratorName,
            Question::PortNumber => answer is PortNumber,
            Question::InstanceId => answer is InstanceId,
            Question::Done => false,
        }
    }
}

/// How far a walk has come.
#[verifier::ext_equal]
pub struct Progress {
    /// What it asks next.
    pub question: Question,
    /// The number of the bus; 0 as long as it is not known.
    pub bus_number: u8,
    /// The ports, from the one that is nearest to the root hub to that of the device.
    pub ports: Seq<u32>,
}

/// A driver name is that of the USB bus.
pub open spec fn is_usb(enumerator: Option<String>) -> bool {
    enumerator matches Some(name) && text::same_ignoring_ascii_case(
        encode_utf8(name@),
        encode_utf8("USB"@),
    )
}

/// The number of the bus whose root hub has this instance ID, or 0.
pub open spec fn bus_of(id: Option<String>, buses: Map<Seq<char>, u8>) -> u8 {
    match id {
        Some(id) => if buses.contains_key(id@) {
            buses[id@]
        } else {
            0
        },
        None => 0,
    }
}

impl Progress {
    /// Where a walk begins.
    pub open spec fn start() -> Progress {
        Progress { question: Question::OwnPortNumber, bus_number: 0, ports: Seq::empty() }
    }

    /// The same, with another question.
    pub open spec fn asking(self, question: Question) -> Progress {
        Progress { question, bus_number: self.bus_number, ports: self.ports }
    }

    /// How far a walk has come once its question is answered.
    ///
    /// It climbs as long as it stands on a node of the USB bus with a port number other than 0,
    /// and puts that number in front of the others. Port number 0 is that of a root hub.
    pub open spec fn next(self, answer: Answer, buses: Map<Seq<char>, u8>) -> Progress {
        match (self.question, answer) {
            (Question::OwnPortNumber, Answer::PortNumber(port)) => match port {
                Some(port) => Progress {
                    question: Question::Parent,
                    bus_number: self.bus_number,
                    ports: self.ports.push(port),
                },
                None => self.asking(Question::Parent),
            },
            (Question::Parent, Answer::Parent(true)) => self.asking(Question::EnumeratorName),
            (Question::EnumeratorName, Answer::EnumeratorName(name)) => if is_usb(name) {
                self.asking(Question::PortNumber)
            } else {
                self.asking(Question::Done)
            },
            (Question::PortNumber, Answer::PortNumber(Some(port))) => if port != 0 {
                Progress {
                    question: Question::Parent,
                    bus_number: self.bus_number,
                    ports: seq![port] + self.ports,
                }
            } else {
                self.asking(Question::InstanceId)
            },
            (Question::InstanceId, Answer::InstanceId(Some(id))) => Progress {
                question: Question::Done,
                bus_number: bus_of(Some(id), buses),
                ports: self.ports,
            },
            _ => self.asking(Question::Done),
        }
    }
}

/// A walk from a device to its root hub.
#[derive(Debug)]
pub struct PortChainWalk {
    question: Question,
    bus_number: u8,
    ports: VecDeque<u32>,
}

impl View for PortChainWalk {
    type V = Progress;

    closed spec fn view(&self) -> Progress {
        Progress { question: self.question, bus_number: self.bus_number, ports: self.ports@ }
    }
}

impl PortChainWalk {
    /// A walk that begins at a device.
    pub fn new() -> (walk: PortChainWalk)
        ensures
            walk@ == Progress::start(),
    {
        PortChainWalk {
            question: Question::OwnPortNumber,
            bus_number: 0,
            ports: VecDeque::new(),
        }
    }

    /// What the walk asks next.
    pub fn question(&self) -> (question: Question)
        ensures
            question == self@.question,
    {
        self.question
    }

    /// Goes on with the answer to its question.
    pub fn step(&mut self, answer: Answer, buses: &BusTable)
        requires
            old(self)@.question.answered_by(answer),
        ensures
            final(self)@ == old(self)@.next(answer, buses@),
    {
        match (self.question, answer) {
            (Question::OwnPortNumber, Answer::PortNumber(port)) => {
                if let Some(port) = port {
                    self.ports.push_back(port);
                }
                self.question = Question::Parent;
            },
            (Question::Parent, Answer::Parent(true)) => {
                self.question = Question::EnumeratorName;
            },
            (Question::EnumeratorName, Answer::EnumeratorName(Some(name))) => {
                if text::equal_ignoring_ascii_case(name.as_str(), "USB") {
                    self.question = Question::PortNumber;
                } else {
                    self.question = Question::Done;
                }
            },
            (Question::PortNumber, Answer::PortNumber(Some(port))) => {
                if port != 0 {
                    self.ports.push_front(port);
                    self.question = Question::Parent;
                } else {
                    self.question = Question::InstanceId;
                }
            },
            (Question::InstanceId, Answer::InstanceId(Some(id))) => {
                self.bus_number = match buses.get(&id) {
                    Some(number) => number,
                    None => 0,
                };
                self.question = Question::Done;
            },
            _ => {
                self.question = Question::Done;
            },
        }
    }

    /// The number of the bus and the ports, once the walk is over.
    pub fn into_port_chain(self) -> (chain: (u8, Vec<u32>))
        requires
            self@.question == Question::Done,
        ensures
            chain.0 == self@.bus_number,
            chain.1@ == self@.ports,
    {
        let mut ports: Vec<u32> = Vec::new();
        let mut i: usize = 0;
        while i < self.ports.len()
            invariant
                i <= self.ports.len(),
                ports@ == self.ports@.take(i as int),
            decreases self.ports.len() - i,
        {
            ports.push(self.ports[i]);
            i += 1;
        }
        assert(self.ports@.take(i as int) =~= self.ports@);
        (self.bus_number, ports)
    }
}

/// What a node of the device tree answers.
pub struct Node {
    /// The name of the bus driver that listed it.
    pub enumerator: Option<String>,
    /// Its port number.
    pub port: Option<u32>,
    /// Its instance ID.
    pub instance_id: Option<String>,
}

impl Node {
    /// The node is one that a walk climbs over: it hangs on a USB port.
    pub open spec fn is_on_port(self) -> bool {
        &&& is_usb(self.enumerator)
        &&& self.port matches Some(port) && port != 0
    }

    /// The node is a root hub.
    pub open spec fn is_root_hub(self) -> bool {
        is_usb(self.enumerator) && self.port == Some(0u32)
    }
}

/// What the walk is told of a device with port number `own` and these ancestors, the parent
/// first, when it has climbed `level` of them.
pub open spec fn answer_of(
    own: Option<u32>,
    ancestors: Seq<Node>,
    level: int,
    question: Question,
) -> Answer {
    match question {
        Question::OwnPortNumber => Answer::PortNumber(own),
        Question::Parent => Answer::Parent(level < ancestors.len()),
        Question::EnumeratorName => Answer::EnumeratorName(ancestors[level - 1].enumerator),
        Question::PortNumber => Answer::PortNumber(ancestors[level - 1].port),
        _ => Answer::InstanceId(ancestors[level - 1].instance_id),
    }
}

/// How many more questions a walk can ask of the node that it stands on.
pub open spec fn questions_left(question: Question) -> int {
    match question {
        Question::OwnPortNumber => 2,
        Question::EnumeratorName => 3,
        Question::PortNumber => 2,
        Question::Parent => 1,
        Question::InstanceId => 1,
        Question::Done => 0,
    }
}

/// Where a walk ends that has come this far.
pub open spec fn walked(
    progress: Progress,
    own: Option<u32>,
    ancestors: Seq<Node>,
    level: int,
    buses: Map<Seq<char>, u8>,
) -> Progress
    decreases ancestors.len() - level, questions_left(progress.question),
{
    if progress.question == Question::Done {
        progress
    } else {
        let answer = answer_of(own, ancestors, level, progress.question);
        let climbed = if answer == Answer::Parent(true) {
            level + 1
        } else {
            level
        };
        walked(progress.next(answer, buses), own, ancestors, climbed, buses)
    }
}

/// The ports of the ancestors that hang on a port, the farthest first; the first ancestor that
/// hangs on none is where they end.
pub open spec fn hub_ports(ancestors: Seq<Node>) -> Seq<u32>
    decreases ancestors.len(),
{
    if ancestors.len() > 0 && ancestors[0].is_on_port() {
        hub_ports(ancestors.skip(1)).push(ancestors[0].port->0)
    } else {
        Seq::empty()
    }
}

/// The number of the bus, if the first ancestor that hangs on no port is a root hub; else 0.
pub open spec fn bus_number(ancestors: Seq<Node>, buses: Map<Seq<char>, u8>) -> u8
    decreases ancestors.len(),
{
    if ancestors.len() == 0 {
        0
    } else if ancestors[0].is_on_port() {
        bus_number(ancestors.skip(1), buses)
    } else if ancestors[0].is_root_hub() {
        bus_of(ancestors[0].instance_id, buses)
    } else {
        0
    }
}

/// A walk that is about to climb finds the ports and the bus of the ancestors that are left.
proof fn lemma_climb(
    ports: Seq<u32>,
    own: Option<u32>,
    ancestors: Seq<Node>,
    level: int,
    buses: Map<Seq<char>, u8>,
)
    requires
        0 <= level <= ancestors.len(),
    ensures
        walked(
            Progress { question: Question::Parent, bus_number: 0, ports },
            own,
            ancestors,
            level,
            buses,
        ) == (Progress {
            question: Question::Done,
            bus_number: bus_number(ancestors.skip(level), buses),
            ports: hub_ports(ancestors.skip(level)) + ports,
        }),
    decreases ancestors.len() - level,
{
    reveal_with_fuel(walked, 5);
    let rest = ancestors.skip(level);
    if level < ancestors.len() {
        assert(rest[0] == ancestors[level]);
        let node = ancestors[level];
        if node.is_on_port() {
            let port = node.port->0;
            lemma_climb(seq![port] + ports, own, ancestors, level + 1, buses);
            assert(rest.skip(1) =~= ancestors.skip(level + 1));
            assert(hub_ports(rest.skip(1)) + (seq![port] + ports) =~= hub_ports(rest.skip(1)).push(
                port,
            ) + ports);
        } else {
            assert(hub_ports(rest) + ports =~= ports);
        }
    } else {
        assert(hub_ports(rest) + ports =~= ports);
    }
}

/// A walk from a device ends, with the ports of its ancestors up to the first that hangs on no
/// port, the farthest first, then its own port; and with the number of the bus where that first
/// ancestor is a root hub that is listed.
pub proof fn law_walk_finds_port_chain(
    own: Option<u32>,
    ancestors: Seq<Node>,
    buses: Map<Seq<char>, u8>,
)
    ensures
        walked(Progress::start(), own, ancestors, 0, buses) == (Progress {
            question: Question::Done,
            bus_number: bus_number(ancestors, buses),
            ports: hub_ports(ancestors) + (match own {
                Some(port) => seq![port],
                None => seq![],
            }),
        }),
{
    let ports: Seq<u32> = match own {
        Some(port) => seq![port],
        None => seq![],
    };
    assert(Progress::start().next(Answer::PortNumber(own), buses) =~= (Progress {
        question: Question::Parent,
        bus_number: 0,
        ports,
    }));
    lemma_climb(ports, own, ancestors, 0, buses);
    assert(ancestors.skip(0) =~= ancestors);
}

/// The last port of the chain is that of the device itself.
pub proof fn law_own_port_is_last(
    port: u32,
    ancestors: Seq<Node>,
    buses: Map<Seq<char>, u8>,
)
    ensures
        walked(Progress::start(), Some(port), ancestors, 0, buses).ports.last() == port,
{
    law_walk_finds_port_chain(Some(port), ancestors, buses);
}

/// No port in front of that of the device is 0.
pub proof fn law_hub_ports_are_not_zero(ancestors: Seq<Node>, i: int)
    requires
        0 <= i < hub_ports(ancestors).len(),
    ensures
        hub_ports(ancestors)[i] != 0,
    decreases ancestors.len(),
{
    let nearer = hub_ports(ancestors.skip(1));
    if i < nearer.len() {
        law_hub_ports_are_not_zero(ancestors.skip(1), i);
    }
}

/// The USB bus has the name of three letters, in upper or lower case each: `USB`, `usb`, `Usb` and
/// so on, and no other. A node without a name is not on it.
pub proof fn law_usb_name(name: String)
    ensures
        is_usb(Some(name)) <==> {
            &&& name@.len() == 3
            &&& name@[0] == 'U' || name@[0] == 'u'
            &&& name@[1] == 'S' || name@[1] == 's'
            &&& name@[2] == 'B' || name@[2] == 'b'
        },
        name@ == "USB"@ ==> is_usb(Some(name)),
        !is_usb(None),
{
    reveal_strlit("USB");
    text::law_same_word(name@, "USB"@);
    let word = "USB"@;
    assert(word[0] == 'U' && word[1] == 'S' && word[2] == 'B');
    if is_usb(Some(name)) {
        assert(name@[0] == word[0] || name@[0] as int == word[0] as int + 32);
        assert(name@[1] == word[1] || name@[1] as int == word[1] as int + 32);
        assert(name@[2] == word[2] || name@[2] as int == word[2] as int + 32);
    }
}

/// A walk begins by asking the device for its port, which becomes the only port of the chain; a
/// device without one leaves the chain empty. Then it asks for the parent.
pub proof fn law_walk_starts_at_device(own: u32, buses: Map<Seq<char>, u8>)
    ensures
        Progress::start().question == Question::OwnPortNumber,
        Question::OwnPortNumber.answered_by(Answer::PortNumber(Some(own))),
        Question::OwnPortNumber.answered_by(Answer::PortNumber(None)),
        Progress::start().next(Answer::PortNumber(Some(own)), buses) == (Progress {
            question: Question::Parent,
            bus_number: 0,
            ports: seq![own],
        }),
        Progress::start().next(Answer::PortNumber(None), buses) == (Progress {
            question: Question::Parent,
            bus_number: 0,
            ports: seq![],
        }),
{
    assert(Seq::<u32>::empty().push(own) =~= seq![own]);
}

/// A walk climbs over a parent on the USB bus that hangs on a port: it asks for the parent, its
/// name and its port, puts the port in front of the others, and asks for the next parent.
pub proof fn law_walk_climbs_over_hub(
    below: Progress,
    name: String,
    port: u32,
    buses: Map<Seq<char>, u8>,
)
    requires
        below.question == Question::Parent,
        name@.len() == 3,
        name@[0] == 'U' || name@[0] == 'u',
        name@[1] == 'S' || name@[1] == 's',
        name@[2] == 'B' || name@[2] == 'b',
        port != 0,
    ensures
        ({
            let at_parent = below.next(Answer::Parent(true), buses);
            let named = at_parent.next(Answer::EnumeratorName(Some(name)), buses);
            let above = named.next(Answer::PortNumber(Some(port)), buses);
            &&& below.question.answered_by(Answer::Parent(true))
            &&& at_parent.question == Question::EnumeratorName
            &&& at_parent.question.answered_by(Answer::EnumeratorName(Some(name)))
            &&& named.question == Question::PortNumber
            &&& named.question.answered_by(Answer::PortNumber(Some(port)))
            &&& above.question == Question::Parent
            &&& above.bus_number == below.bus_number
            &&& above.ports == seq![port] + below.ports
        }),
{
    law_usb_name(name);
}

/// A walk ends at a parent on the USB bus with port 0, a root hub: with the number of the bus that
/// is listed under its instance ID, or 0 where none is, and with the ports that it has found.
pub proof fn law_walk_ends_at_root_hub(
    below: Progress,
    name: String,
    id: String,
    buses: Map<Seq<char>, u8>,
)
    requires
        below.question == Question::Parent,
        name@.len() == 3,
        name@[0] == 'U' || name@[0] == 'u',
        name@[1] == 'S' || name@[1] == 's',
        name@[2] == 'B' || name@[2] == 'b',
    ensures
        ({
            let at_parent = below.next(Answer::Parent(true), buses);
            let named = at_parent.next(Answer::EnumeratorName(Some(name)), buses);
            let at_root = named.next(Answer::PortNumber(Some(0u32)), buses);
            let end = at_root.next(Answer::InstanceId(Some(id)), buses);
            &&& named.question == Question::PortNumber
            &&& at_root.question == Question::InstanceId
            &&& at_root.question.answered_by(Answer::InstanceId(Some(id)))
            &&& end.question == Question::Done
            &&& buses.contains_key(id@) ==> end.bus_number == buses[id@]
            &&& !buses.contains_key(id@) ==> end.bus_number == 0
            &&& end.ports == below.ports
            &&& at_root.next(Answer::InstanceId(None), buses) == (Progress {
                question: Question::Done,
                bus_number: below.bus_number,
                ports: below.ports,
            })
        }),
{
    law_usb_name(name);
}

/// A walk breaks off, with what it has found, where there is no parent, where the parent has no
/// name or a name that is not the three letters of the USB bus, and where it has no port.
pub proof fn law_walk_breaks_off(
    below: Progress,
    other: String,
    name: String,
    buses: Map<Seq<char>, u8>,
)
    requires
        below.question == Question::Parent,
        !{
            &&& other@.len() == 3
            &&& other@[0] == 'U' || other@[0] == 'u'
            &&& other@[1] == 'S' || other@[1] == 's'
            &&& other@[2] == 'B' || other@[2] == 'b'
        },
        name@ == "USB"@,
    ensures
        ({
            let at_parent = below.next(Answer::Parent(true), buses);
            let named = at_parent.next(Answer::EnumeratorName(Some(name)), buses);
            let end = Progress {
                question: Question::Done,
                bus_number: below.bus_number,
                ports: below.ports,
            };
            &&& below.next(Answer::Parent(false), buses) == end
            &&& at_parent.next(Answer::EnumeratorName(None), buses) == end
            &&& at_parent.next(Answer::EnumeratorName(Some(other)), buses) == end
            &&& named.next(Answer::PortNumber(None), buses) == end
        }),
{
    law_usb_name(other);
    law_usb_name(name);
}

/// The chain of `n` ancestors that hang on ports, and then one that does not, has their ports in
/// reverse, and the bus is that of the one above them.
proof fn lemma_hub_ports(ancestors: Seq<Node>, n: int, buses: Map<Seq<char>, u8>)
    requires
        0 <= n <= ancestors.len(),
        forall|i: int| 0 <= i < n ==> (#[trigger] ancestors[i]).is_on_port(),
        n < ancestors.len() ==> !ancestors[n].is_on_port(),
    ensures
        hub_ports(ancestors).len() == n,
        forall|i: int|
            0 <= i < n ==> #[trigger] hub_ports(ancestors)[i] == ancestors[n - 1 - i].port->0,
        bus_number(ancestors, buses) == (if n < ancestors.len() && ancestors[n].is_root_hub() {
            bus_of(ancestors[n].instance_id, buses)
        } else {
            0
        }),
    decreases n,
{
    if n > 0 {
        let rest = ancestors.skip(1);
        assert(ancestors[0].is_on_port());
        assert forall|i: int| 0 <= i < n - 1 implies (#[trigger] rest[i]).is_on_port() by {
            assert(rest[i] == ancestors[i + 1]);
        }
        lemma_hub_ports(rest, n - 1, buses);
        assert forall|i: int| 0 <= i < n implies #[trigger] hub_ports(ancestors)[i]
            == ancestors[n - 1 - i].port->0 by {
            if i < n - 1 {
                assert(hub_ports(rest)[i] == rest[n - 2 - i].port->0);
                assert(hub_ports(ancestors)[i] == hub_ports(rest)[i]);
            }
        }
    }
}

/// A device below `n` ancestors named `USB` that hang on ports other than 0, below a root hub, is
/// on the bus that is listed for the root hub, and is reached through the ports of the ancestors,
/// the one nearest to the root hub first, and last its own.
pub proof fn law_walk_to_root_hub(
    own: u32,
    ancestors: Seq<Node>,
    n: int,
    buses: Map<Seq<char>, u8>,
)
    requires
        0 <= n < ancestors.len(),
        forall|i: int|
            0 <= i <= n ==> {
                &&& (#[trigger] ancestors[i]).enumerator is Some
                &&& ancestors[i].enumerator->0@ == "USB"@
                &&& ancestors[i].port is Some
                &&& ancestors[i].port->0 == 0 <==> i == n
            },
        ancestors[n].instance_id is Some,
        buses.contains_key(ancestors[n].instance_id->0@),
    ensures
        ({
            let end = walked(Progress::start(), Some(own), ancestors, 0, buses);
            &&& end.question == Question::Done
            &&& end.bus_number == buses[ancestors[n].instance_id->0@]
            &&& end.ports.len() == n + 1
            &&& end.ports[n] == own
            &&& forall|i: int|
                0 <= i < n ==> #[trigger] end.ports[i] == ancestors[n - 1 - i].port->0
        }),
{
    assert forall|i: int| 0 <= i < n implies (#[trigger] ancestors[i]).is_on_port() by {
        law_usb_name(ancestors[i].enumerator->0);
    }
    law_usb_name(ancestors[n].enumerator->0);
    lemma_hub_ports(ancestors, n, buses);
    law_walk_finds_port_chain(Some(own), ancestors, buses);
    let end = walked(Progress::start(), Some(own), ancestors, 0, buses);
    assert forall|i: int| 0 <= i < n implies #[trigger] end.ports[i] == ancestors[n - 1
        - i].port->0 by {
        assert(hub_ports(ancestors)[i] == ancestors[n - 1 - i].port->0);
    }
}

/// A device below `n` ancestors named `USB` that hang on ports other than 0, above which no root
/// hub that is listed follows at once, is on no known bus, and is reached through the ports of
/// those ancestors, the farthest first, and last its own.
pub proof fn law_walk_without_root_hub(
    own: u32,
    ancestors: Seq<Node>,
    n: int,
    buses: Map<Seq<char>, u8>,
)
    requires
        0 <= n <= ancestors.len(),
        forall|i: int|
            0 <= i < n ==> {
                &&& (#[trigger] ancestors[i]).enumerator is Some
                &&& ancestors[i].enumerator->0@ == "USB"@
                &&& ancestors[i].port is Some
                &&& ancestors[i].port->0 != 0
            },
        n < ancestors.len() ==> {
            ||| ancestors[n].enumerator is None
            ||| ancestors[n].enumerator->0@.len() != 3
            ||| ancestors[n].enumerator->0@[0] != 'U' && ancestors[n].enumerator->0@[0] != 'u'
            ||| ancestors[n].enumerator->0@[1] != 'S' && ancestors[n].enumerator->0@[1] != 's'
            ||| ancestors[n].enumerator->0@[2] != 'B' && ancestors[n].enumerator->0@[2] != 'b'
            ||| ancestors[n].port is None
            ||| ancestors[n].port->0 == 0 && (ancestors[n].instance_id is None
                || !buses.contains_key(ancestors[n].instance_id->0@))
        },
    ensures
        ({
            let end = walked(Progress::start(), Some(own), ancestors, 0, buses);
            &&& end.question == Question::Done
            &&& end.bus_number == 0
            &&& end.ports.len() == n + 1
            &&& end.ports[n] == own
            &&& forall|i: int|
                0 <= i < n ==> #[trigger] end.ports[i] == ancestors[n - 1 - i].port->0
        }),
{
    assert forall|i: int| 0 <= i < n implies (#[trigger] ancestors[i]).is_on_port() by {
        law_usb_name(ancestors[i].enumerator->0);
    }
    if n < ancestors.len() && ancestors[n].enumerator is Some {
        law_usb_name(ancestors[n].enumerator->0);
    }
    lemma_hub_ports(ancestors, n, buses);
    law_walk_finds_port_chain(Some(own), ancestors, buses);
    let end = walked(Progress::start(), Some(own), ancestors, 0, buses);
    assert forall|i: int| 0 <= i < n implies #[trigger] end.ports[i] == ancestors[n - 1
        - i].port->0 by {
        assert(hub_ports(ancestors)[i] == ancestors[n - 1 - i].port->0);
    }
}

/// The port of the device only adds itself at the end of the chain: without it, bus and other
/// ports are the same.
pub proof fn law_own_port_adds_itself(
    own: u32,
    ancestors: Seq<Node>,
    buses: Map<Seq<char>, u8>,
)
    ensures
        walked(Progress::start(), Some(own), ancestors, 0, buses).ports == walked(
            Progress::start(),
            None,
            ancestors,
            0,
            buses,
        ).ports.push(own),
        walked(Progress::start(), Some(own), ancestors, 0, buses).bus_number == walked(
            Progress::start(),
            None,
            ancestors,
            0,
            buses,
        ).bus_number,
{
    law_walk_finds_port_chain(Some(own), ancestors, buses);
    law_walk_finds_port_chain(None, ancestors, buses);
    assert(hub_ports(ancestors) + seq![own] =~= (hub_ports(ancestors) + seq![]).push(own));
}

/// Three steps of a walk over a parent named `USB` with a port other than 0 put that port in front
/// of the others, leave the rest as it was, and ask for the next parent.
pub proof fn law_steps_over_hub(
    first: &mut PortChainWalk,
    second: &mut PortChainWalk,
    third: &mut PortChainWalk,
    name: String,
    port: u32,
    buses: &BusTable,
    question: Question,
)
    requires
        old(first)@.question == Question::Parent,
        name@ == "USB"@,
        port != 0,
        call_ensures(PortChainWalk::step, (first, Answer::Parent(true), buses), ()),
        *old(second) == *final(first),
        call_ensures(
            PortChainWalk::step,
            (second, Answer::EnumeratorName(Some(name)), buses),
            (),
        ),
        *old(third) == *final(second),
        call_ensures(PortChainWalk::step, (third, Answer::PortNumber(Some(port)), buses), ()),
        call_ensures(PortChainWalk::question, (&*final(third),), question),
    ensures
        question == Question::Parent,
        final(third)@.ports == seq![port] + old(first)@.ports,
        final(third)@.bus_number == old(first)@.bus_number,
{
    reveal_strlit("USB");
    law_walk_climbs_over_hub(old(first)@, name, port, buses@);
}

/// What a walk hands out, if it is over as soon as it has begun to climb, is the bus 0 and the port
/// of the device alone.
pub proof fn law_device_without_parent(
    begun: &mut PortChainWalk,
    asked: &mut PortChainWalk,
    own: u32,
    buses: &BusTable,
    chain: (u8, Vec<u32>),
)
    requires
        call_ensures(PortChainWalk::new, (), *old(begun)),
        call_ensures(PortChainWalk::step, (begun, Answer::PortNumber(Some(own)), buses), ()),
        *old(asked) == *final(begun),
        call_ensures(PortChainWalk::step, (asked, Answer::Parent(false), buses), ()),
        call_ensures(PortChainWalk::into_port_chain, (*final(asked),), chain),
    ensures
        final(asked)@.question == Question::Done,
        chain.0 == 0,
        chain.1@ == seq![own],
{
    law_walk_starts_at_device(own, buses@);
}

/// What is handed out of a walk that is over is the number of the bus and all the ports, in order.
pub proof fn law_chain_is_handed_out(walk: PortChainWalk, chain: (u8, Vec<u32>))
    requires
        walk@.question == Question::Done,
        call_ensures(PortChainWalk::into_port_chain, (walk,), chain),
    ensures
        chain.0 == walk@.bus_number,
        chain.1@.len() == walk@.ports.len(),
        forall|i: int| 0 <= i < chain.1@.len() ==> #[trigger] chain.1@[i] == walk@.ports[i],
{
}

/// A root hub that is listed has the number of the last place where its instance ID stands in the
/// list, counted from 1, as far as a byte goes; an ID that stands nowhere in it has none.
pub proof fn law_listed_root_hub(
    ids: Vec<String>,
    i: int,
    other: String,
    table: BusTable,
    number: Option<u8>,
    none: Option<u8>,
)
    requires
        0 <= i < ids@.len(),
        forall|j: int| i < j < ids@.len() ==> (#[trigger] ids@[j])@ != ids@[i]@,
        forall|j: int| 0 <= j < ids@.len() ==> (#[trigger] ids@[j])@ != other@,
        call_ensures(BusTable::new, (ids,), table),
        call_ensures(BusTable::get, (&table, &ids@[i]), number),
        call_ensures(BusTable::get, (&table, &other), none),
    ensures
        table@.contains_key(ids@[i]@),
        number == Some(table@[ids@[i]@]),
        number == Some(((i + 1) % 256) as u8),
        !table@.contains_key(other@),
        none is None,
{
    let strings = contents(ids@);
    assert forall|j: int| i < j < strings.len() implies strings[j] != strings[i] by {
        assert(strings[j] == ids@[j]@);
    }
    law_bus_number(strings, i);
    assert forall|j: int| 0 <= j < strings.len() implies strings[j] != other@ by {
        assert(strings[j] == ids@[j]@);
    }
    law_bus_number_of_none(strings, other@);
}

/// A walk takes any answer of the kind that it asks for: any port number or none, whether or not
/// there is a parent, any name or none, and any instance ID or none.
pub proof fn law_walk_takes_any_answer(
    port: Option<u32>,
    parent: bool,
    name: Option<String>,
    id: Option<String>,
)
    ensures
        Question::OwnPortNumber.answered_by(Answer::PortNumber(port)),
        Question::Parent.answered_by(Answer::Parent(parent)),
        Question::EnumeratorName.answered_by(Answer::EnumeratorName(name)),
        Question::PortNumber.answered_by(Answer::PortNumber(port)),
        Question::InstanceId.answered_by(Answer::InstanceId(id)),
{
}

} // verus!
