//! The publish/subscribe computation graph: nodes, topics and the
//! message log.
//!
//! Nodes and topics are identified by name; adding an entity under an
//! existing name overwrites the prior entity in place. Publisher and
//! subscriber membership lists are kept duplicate-free in insertion
//! order. The message log is a flat append-only record: a message is
//! never checked against the topic registry, by design.

use crate::scalar::Scalar;
use vstd::prelude::*;

verus! {

/// The only two failures the graph can report, both raised solely by
/// `publish` and `subscribe`.
#[derive(Clone, Copy, PartialEq, Eq, Structural, Debug)]
pub enum SimError {
    NodeNotFound,
    TopicNotFound,
}

/// A named logical computation unit; it has identity and position only.
pub struct Ros2Node {
    pub name: String,
    pub node_type: String,
    pub x: Scalar,
    pub y: Scalar,
}

/// A named channel with duplicate-free publisher and subscriber
/// node-name lists; it does not deliver messages.
pub struct Ros2Topic {
    pub name: String,
    pub msg_type: String,
    pub publishers: Vec<String>,
    pub subscribers: Vec<String>,
}

/// An append-only log entry: a topic name (not required to name an
/// existing topic), a free-form payload and a caller-supplied timestamp.
pub struct Ros2Message {
    pub topic: String,
    pub data: String,
    pub timestamp: Scalar,
}

/// No two entries of `s` hold the same string.
pub open spec fn distinct_strings(s: Seq<String>) -> bool {
    forall|i: int, j: int| 0 <= i < j < s.len() ==> s[i]@ != s[j]@
}

/// Some entry of `s` holds the string `n`.
pub open spec fn contains_str(s: Seq<String>, n: Seq<char>) -> bool {
    exists|i: int| 0 <= i < s.len() && s[i]@ == n
}

/// A membership list after one `publish`/`subscribe` of `n`: appended
/// only if not already present.
pub open spec fn added_once(s: Seq<String>, n: String) -> Seq<String> {
    if contains_str(s, n@) {
        s
    } else {
        s.push(n)
    }
}

/// Every topic's membership lists are duplicate-free.
pub open spec fn topic_lists_distinct(s: Seq<Ros2Topic>) -> bool {
    forall|k: int|
        0 <= k < s.len() ==> distinct_strings((#[trigger] s[k]).publishers@) && distinct_strings(
            s[k].subscribers@,
        )
}

/// Recording a member keeps a duplicate-free list duplicate-free.
proof fn lemma_added_once_distinct(v: Seq<String>, n: String)
    requires
        distinct_strings(v),
    ensures
        distinct_strings(added_once(v, n)),
{
    if !contains_str(v, n@) {
        let up = v.push(n);
        assert forall|i: int, j: int| 0 <= i < j < up.len() implies up[i]@ != up[j]@ by {
            if j == v.len() as int {
                if up[i]@ == n@ {
                    assert(v[i]@ == n@);
                    assert(contains_str(v, n@));
                }
            }
        }
    }
}

/// A topic whose own lists are duplicate-free can replace any entry
/// without breaking the registry's membership invariant.
proof fn lemma_lists_distinct_after_update(s: Seq<Ros2Topic>, i: int, t: Ros2Topic)
    requires
        topic_lists_distinct(s),
        0 <= i < s.len(),
        distinct_strings(t.publishers@),
        distinct_strings(t.subscribers@),
    ensures
        topic_lists_distinct(s.update(i, t)),
{
    let up = s.update(i, t);
    assert forall|k: int|
        0 <= k < up.len() implies distinct_strings((#[trigger] up[k]).publishers@)
        && distinct_strings(up[k].subscribers@) by {
        if k != i {
            assert(up[k] == s[k]);
        }
    }
}

/// The push twin of `lemma_lists_distinct_after_update`.
proof fn lemma_lists_distinct_after_push(s: Seq<Ros2Topic>, t: Ros2Topic)
    requires
        topic_lists_distinct(s),
        distinct_strings(t.publishers@),
        distinct_strings(t.subscribers@),
    ensures
        topic_lists_distinct(s.push(t)),
{
    let up = s.push(t);
    assert forall|k: int|
        0 <= k < up.len() implies distinct_strings((#[trigger] up[k]).publishers@)
        && distinct_strings(up[k].subscribers@) by {
        if k != s.len() as int {
            assert(up[k] == s[k]);
        }
    }
}

pub open spec fn distinct_node_names(s: Seq<Ros2Node>) -> bool {
    forall|i: int, j: int| 0 <= i < j < s.len() ==> s[i].name@ != s[j].name@
}

pub open spec fn node_has(s: Seq<Ros2Node>, m: Seq<char>) -> bool {
    exists|i: int| 0 <= i < s.len() && s[i].name@ == m
}

pub open spec fn node_index_of(s: Seq<Ros2Node>, m: Seq<char>) -> int {
    choose|i: int| 0 <= i < s.len() && s[i].name@ == m
}

pub open spec fn node_lookup(s: Seq<Ros2Node>, m: Seq<char>) -> Ros2Node {
    s[node_index_of(s, m)]
}

/// The node registry after inserting `n`: the entry under the same name
/// is replaced in place if one exists, else `n` is appended.
pub open spec fn upsert_node(s: Seq<Ros2Node>, n: Ros2Node) -> Seq<Ros2Node> {
    if node_has(s, n.name@) {
        s.update(node_index_of(s, n.name@), n)
    } else {
        s.push(n)
    }
}

pub open spec fn distinct_topic_names(s: Seq<Ros2Topic>) -> bool {
    forall|i: int, j: int| 0 <= i < j < s.len() ==> s[i].name@ != s[j].name@
}

pub open spec fn topic_has(s: Seq<Ros2Topic>, m: Seq<char>) -> bool {
    exists|i: int| 0 <= i < s.len() && s[i].name@ == m
}

pub open spec fn topic_index_of(s: Seq<Ros2Topic>, m: Seq<char>) -> int {
    choose|i: int| 0 <= i < s.len() && s[i].name@ == m
}

pub open spec fn topic_lookup(s: Seq<Ros2Topic>, m: Seq<char>) -> Ros2Topic {
    s[topic_index_of(s, m)]
}

/// The topic registry after inserting `t`: replace in place under the
/// same name, else append.
pub open spec fn upsert_topic(s: Seq<Ros2Topic>, t: Ros2Topic) -> Seq<Ros2Topic> {
    if topic_has(s, t.name@) {
        s.update(topic_index_of(s, t.name@), t)
    } else {
        s.push(t)
    }
}

/// In a registry with distinct names, an entry's index is determined by
/// its name.
proof fn lemma_node_at(s: Seq<Ros2Node>, m: Seq<char>, k: int)
    requires
        distinct_node_names(s),
        0 <= k < s.len(),
        s[k].name@ == m,
    ensures
        node_has(s, m),
        node_index_of(s, m) == k,
        node_lookup(s, m) == s[k],
{
    assert(node_has(s, m));
    let i = node_index_of(s, m);
    assert(0 <= i < s.len() && s[i].name@ == m);
}

proof fn lemma_topic_at(s: Seq<Ros2Topic>, m: Seq<char>, k: int)
    requires
        distinct_topic_names(s),
        0 <= k < s.len(),
        s[k].name@ == m,
    ensures
        topic_has(s, m),
        topic_index_of(s, m) == k,
        topic_lookup(s, m) == s[k],
{
    assert(topic_has(s, m));
    let i = topic_index_of(s, m);
    assert(0 <= i < s.len() && s[i].name@ == m);
}

/// Law: inserting a node under an existing name replaces that entry's
/// attributes entirely, leaves every other entry alone, and does not
/// grow the registry; under a fresh name it appends one entry.
pub proof fn lemma_upsert_node_overwrites(s: Seq<Ros2Node>, n: Ros2Node)
    requires
        distinct_node_names(s),
    ensures
        distinct_node_names(upsert_node(s, n)),
        node_has(upsert_node(s, n), n.name@),
        node_lookup(upsert_node(s, n), n.name@) == n,
        forall|m: Seq<char>|
            m != n.name@ ==> #[trigger] node_has(upsert_node(s, n), m) == node_has(s, m),
        forall|m: Seq<char>|
            m != n.name@ && node_has(s, m) ==> #[trigger] node_lookup(upsert_node(s, n), m)
                == node_lookup(s, m),
        upsert_node(s, n).len() == if node_has(s, n.name@) {
            s.len()
        } else {
            s.len() + 1
        },
{
    let up = upsert_node(s, n);
    if node_has(s, n.name@) {
        let i = node_index_of(s, n.name@);
        assert(0 <= i < s.len() && s[i].name@ == n.name@);
        assert forall|k: int| 0 <= k < up.len() implies #[trigger] up[k].name@ == s[k].name@ by {
            if k == i {
                assert(up[k] == n);
            }
        }
        lemma_node_at(up, n.name@, i);
        assert forall|m: Seq<char>| m != n.name@ implies #[trigger] node_has(up, m) == node_has(
            s,
            m,
        ) by {
            if node_has(s, m) {
                let j = node_index_of(s, m);
                assert(up[j].name@ == m);
            }
            if node_has(up, m) {
                let j = node_index_of(up, m);
                assert(s[j].name@ == m);
            }
        }
        assert forall|m: Seq<char>| m != n.name@ && node_has(s, m) implies #[trigger] node_lookup(
            up,
            m,
        ) == node_lookup(s, m) by {
            let j = node_index_of(s, m);
            assert(0 <= j < s.len() && s[j].name@ == m);
            assert(j != i);
            lemma_node_at(up, m, j);
        }
    } else {
        assert(up == s.push(n));
        assert forall|k: int| 0 <= k < s.len() implies #[trigger] up[k] == s[k] by {}
        lemma_node_at(up, n.name@, s.len() as int);
        assert forall|m: Seq<char>| m != n.name@ implies #[trigger] node_has(up, m) == node_has(
            s,
            m,
        ) by {
            if node_has(s, m) {
                let j = node_index_of(s, m);
                assert(up[j].name@ == m);
            }
            if node_has(up, m) {
                let j = node_index_of(up, m);
                assert(0 <= j < up.len() && up[j].name@ == m);
                assert(j != s.len() as int);
                assert(s[j].name@ == m);
            }
        }
        assert forall|m: Seq<char>| m != n.name@ && node_has(s, m) implies #[trigger] node_lookup(
            up,
            m,
        ) == node_lookup(s, m) by {
            let j = node_index_of(s, m);
            lemma_node_at(up, m, j);
        }
    }
}

/// Law: the topic-registry twin of `lemma_upsert_node_overwrites`.
pub proof fn lemma_upsert_topic_overwrites(s: Seq<Ros2Topic>, t: Ros2Topic)
    requires
        distinct_topic_names(s),
    ensures
        distinct_topic_names(upsert_topic(s, t)),
        topic_has(upsert_topic(s, t), t.name@),
        topic_lookup(upsert_topic(s, t), t.name@) == t,
        forall|m: Seq<char>|
            m != t.name@ ==> #[trigger] topic_has(upsert_topic(s, t), m) == topic_has(s, m),
        forall|m: Seq<char>|
            m != t.name@ && topic_has(s, m) ==> #[trigger] topic_lookup(upsert_topic(s, t), m)
                == topic_lookup(s, m),
        upsert_topic(s, t).len() == if topic_has(s, t.name@) {
            s.len()
        } else {
            s.len() + 1
        },
{
    let up = upsert_topic(s, t);
    if topic_has(s, t.name@) {
        let i = topic_index_of(s, t.name@);
        assert(0 <= i < s.len() && s[i].name@ == t.name@);
        assert forall|k: int| 0 <= k < up.len() implies #[trigger] up[k].name@ == s[k].name@ by {
            if k == i {
                assert(up[k] == t);
            }
        }
        lemma_topic_at(up, t.name@, i);
        assert forall|m: Seq<char>| m != t.name@ implies #[trigger] topic_has(up, m) == topic_has(
            s,
            m,
        ) by {
            if topic_has(s, m) {
                let j = topic_index_of(s, m);
                assert(up[j].name@ == m);
            }
            if topic_has(up, m) {
                let j = topic_index_of(up, m);
                assert(s[j].name@ == m);
            }
        }
        assert forall|m: Seq<char>| m != t.name@ && topic_has(s, m) implies #[trigger] topic_lookup(
            up,
            m,
        ) == topic_lookup(s, m) by {
            let j = topic_index_of(s, m);
            assert(0 <= j < s.len() && s[j].name@ == m);
            assert(j != i);
            lemma_topic_at(up, m, j);
        }
    } else {
        assert(up == s.push(t));
        assert forall|k: int| 0 <= k < s.len() implies #[trigger] up[k] == s[k] by {}
        lemma_topic_at(up, t.name@, s.len() as int);
        assert forall|m: Seq<char>| m != t.name@ implies #[trigger] topic_has(up, m) == topic_has(
            s,
            m,
        ) by {
            if topic_has(s, m) {
                let j = topic_index_of(s, m);
                assert(up[j].name@ == m);
            }
            if topic_has(up, m) {
                let j = topic_index_of(up, m);
                assert(0 <= j < up.len() && up[j].name@ == m);
                assert(j != s.len() as int);
                assert(s[j].name@ == m);
            }
        }
        assert forall|m: Seq<char>| m != t.name@ && topic_has(s, m) implies #[trigger] topic_lookup(
            up,
            m,
        ) == topic_lookup(s, m) by {
            let j = topic_index_of(s, m);
            lemma_topic_at(up, m, j);
        }
    }
}

/// Law: recording a member twice is the same as recording it once.
pub proof fn lemma_added_once_idempotent(s: Seq<String>, n: String)
    ensures
        added_once(added_once(s, n), n) == added_once(s, n),
{
    if !contains_str(s, n@) {
        assert(s.push(n)[s.len() as int]@ == n@);
        assert(contains_str(s.push(n), n@));
    }
}

/// Law: in a duplicate-free membership list, a present name occurs at
/// exactly one index.
pub proof fn lemma_member_occurs_once(s: Seq<String>, n: Seq<char>)
    requires
        distinct_strings(s),
        contains_str(s, n),
    ensures
        exists|i: int|
            0 <= i < s.len() && s[i]@ == n && (forall|j: int|
                0 <= j < s.len() && #[trigger] s[j]@ == n ==> j == i),
{
    let i = choose|i: int| 0 <= i < s.len() && s[i]@ == n;
    assert(0 <= i < s.len() && s[i]@ == n && (forall|j: int|
        0 <= j < s.len() && #[trigger] s[j]@ == n ==> j == i));
}

/// Membership test for a list of names.
fn contains_string(v: &Vec<String>, n: &String) -> (r: bool)
    ensures
        r == contains_str(v@, n@),
{
    let mut i: usize = 0;
    while i < v.len()
        invariant
            i <= v@.len(),
            forall|k: int| 0 <= k < i ==> #[trigger] v@[k]@ != n@,
        decreases v@.len() - i,
    {
        if v[i] == *n {
            return true;
        }
        i = i + 1;
    }
    false
}

/// Index of the node named `name`, if any.
fn find_node(v: &Vec<Ros2Node>, name: &String) -> (r: Option<usize>)
    ensures
        match r {
            Some(i) => 0 <= i < v@.len() && v@[i as int].name@ == name@,
            None => forall|k: int| 0 <= k < v@.len() ==> #[trigger] v@[k].name@ != name@,
        },
{
    let mut i: usize = 0;
    while i < v.len()
        invariant
            i <= v@.len(),
            forall|k: int| 0 <= k < i ==> #[trigger] v@[k].name@ != name@,
        decreases v@.len() - i,
    {
        if v[i].name == *name {
            return Some(i);
        }
        i = i + 1;
    }
    None
}

/// Index of the topic named `name`, if any.
fn find_topic(v: &Vec<Ros2Topic>, name: &String) -> (r: Option<usize>)
    ensures
        match r {
            Some(i) => 0 <= i < v@.len() && v@[i as int].name@ == name@,
            None => forall|k: int| 0 <= k < v@.len() ==> #[trigger] v@[k].name@ != name@,
        },
{
    let mut i: usize = 0;
    while i < v.len()
        invariant
            i <= v@.len(),
            forall|k: int| 0 <= k < i ==> #[trigger] v@[k].name@ != name@,
        decreases v@.len() - i,
    {
        if v[i].name == *name {
            return Some(i);
        }
        i = i + 1;
    }
    None
}

/// Owns nodes, topics and the message log.
pub struct GraphRegistry {
    nodes: Vec<Ros2Node>,
    topics: Vec<Ros2Topic>,
    messages: Vec<Ros2Message>,
}

impl GraphRegistry {
    pub closed spec fn nodes_seq(self) -> Seq<Ros2Node> {
        self.nodes@
    }

    pub closed spec fn topics_seq(self) -> Seq<Ros2Topic> {
        self.topics@
    }

    pub closed spec fn messages_seq(self) -> Seq<Ros2Message> {
        self.messages@
    }

    pub open spec fn has_node(self, m: Seq<char>) -> bool {
        node_has(self.nodes_seq(), m)
    }

    pub open spec fn node_of(self, m: Seq<char>) -> Ros2Node {
        node_lookup(self.nodes_seq(), m)
    }

    pub open spec fn has_topic(self, m: Seq<char>) -> bool {
        topic_has(self.topics_seq(), m)
    }

    pub open spec fn topic_of(self, m: Seq<char>) -> Ros2Topic {
        topic_lookup(self.topics_seq(), m)
    }

    /// Node and topic names are unique and every membership list is
    /// duplicate-free.
    pub open spec fn wf(self) -> bool {
        &&& distinct_node_names(self.nodes_seq())
        &&& distinct_topic_names(self.topics_seq())
        &&& topic_lists_distinct(self.topics_seq())
    }

    /// An empty graph.
    pub fn new() -> (r: GraphRegistry)
        ensures
            r.wf(),
            r.nodes_seq() == Seq::<Ros2Node>::empty(),
            r.topics_seq() == Seq::<Ros2Topic>::empty(),
            r.messages_seq() == Seq::<Ros2Message>::empty(),
    {
        let r = GraphRegistry { nodes: Vec::new(), topics: Vec::new(), messages: Vec::new() };
        proof {
            assert(r.nodes_seq() =~= Seq::<Ros2Node>::empty());
            assert(r.topics_seq() =~= Seq::<Ros2Topic>::empty());
            assert(r.messages_seq() =~= Seq::<Ros2Message>::empty());
        }
        r
    }

    /// Inserts or overwrites the node under `name`. No error path.
    pub fn add_node(&mut self, name: String, node_type: String, x: Scalar, y: Scalar)
        requires
            old(self).wf(),
        ensures
            final(self).wf(),
            final(self).nodes_seq() == upsert_node(
                old(self).nodes_seq(),
                (Ros2Node { name, node_type, x, y }),
            ),
            final(self).has_node(name@),
            final(self).node_of(name@) == (Ros2Node { name, node_type, x, y }),
            forall|m: Seq<char>|
                m != name@ ==> #[trigger] final(self).has_node(m) == old(self).has_node(m),
            forall|m: Seq<char>|
                m != name@ && old(self).has_node(m) ==> #[trigger] final(self).node_of(m) == old(self).node_of(m),
            final(self).nodes_seq().len() == if old(self).has_node(name@) {
                old(self).nodes_seq().len()
            } else {
                old(self).nodes_seq().len() + 1
            },
            final(self).topics_seq() == old(self).topics_seq(),
            final(self).messages_seq() == old(self).messages_seq(),
    {
        let idx = find_node(&self.nodes, &name);
        let node = Ros2Node { name, node_type, x, y };
        let ghost s_old = self.nodes@;
        match idx {
            Some(i) => {
                proof {
                    lemma_node_at(s_old, node.name@, i as int);
                }
                let _ = self.nodes.remove(i);
                self.nodes.insert(i, node);
                proof {
                    assert(self.nodes@ =~= s_old.update(i as int, node));
                    lemma_upsert_node_overwrites(s_old, node);
                }
            },
            None => {
                self.nodes.push(node);
                proof {
                    assert(!node_has(s_old, node.name@));
                    lemma_upsert_node_overwrites(s_old, node);
                }
            },
        }
    }

    /// Inserts or overwrites the topic under `name`, resetting its
    /// membership lists to empty. No error path.
    pub fn add_topic(&mut self, name: String, msg_type: String)
        requires
            old(self).wf(),
        ensures
            final(self).wf(),
            final(self).topics_seq().len() == upsert_topic_len(old(self).topics_seq(), name@),
            final(self).has_topic(name@),
            final(self).topic_of(name@).name == name,
            final(self).topic_of(name@).msg_type == msg_type,
            final(self).topic_of(name@).publishers@ == Seq::<String>::empty(),
            final(self).topic_of(name@).subscribers@ == Seq::<String>::empty(),
            forall|m: Seq<char>|
                m != name@ ==> #[trigger] final(self).has_topic(m) == old(self).has_topic(m),
            forall|m: Seq<char>|
                m != name@ && old(self).has_topic(m) ==> #[trigger] final(self).topic_of(m) == old(self).topic_of(m),
            final(self).nodes_seq() == old(self).nodes_seq(),
            final(self).messages_seq() == old(self).messages_seq(),
    {
        let idx = find_topic(&self.topics, &name);
        let topic = Ros2Topic { name, msg_type, publishers: Vec::new(), subscribers: Vec::new() };
        let ghost s_old = self.topics@;
        proof {
            assert(topic.publishers@ =~= Seq::<String>::empty());
            assert(topic.subscribers@ =~= Seq::<String>::empty());
        }
        match idx {
            Some(i) => {
                proof {
                    lemma_topic_at(s_old, topic.name@, i as int);
                }
                let _ = self.topics.remove(i);
                self.topics.insert(i, topic);
                proof {
                    assert(self.topics@ =~= s_old.update(i as int, topic));
                    lemma_upsert_topic_overwrites(s_old, topic);
                    lemma_lists_distinct_after_update(s_old, i as int, topic);
                }
            },
            None => {
                self.topics.push(topic);
                proof {
                    assert(!topic_has(s_old, topic.name@));
                    lemma_upsert_topic_overwrites(s_old, topic);
                    lemma_lists_distinct_after_push(s_old, topic);
                }
            },
        }
    }

    /// Adds `node_name` to the publisher list of `topic_name`, if not
    /// already present. Strict lookup: the node and the topic must both
    /// exist.
    pub fn publish(&mut self, node_name: String, topic_name: String) -> (r: Result<(), SimError>)
        requires
            old(self).wf(),
        ensures
            final(self).wf(),
            final(self).nodes_seq() == old(self).nodes_seq(),
            final(self).messages_seq() == old(self).messages_seq(),
            r is Err ==> final(self).topics_seq() == old(self).topics_seq(),
            !old(self).has_node(node_name@) ==> r == Err::<(), SimError>(SimError::NodeNotFound),
            old(self).has_node(node_name@) && !old(self).has_topic(topic_name@) ==> r == Err::<
                (),
                SimError,
            >(SimError::TopicNotFound),
            old(self).has_node(node_name@) && old(self).has_topic(topic_name@) ==> r == Ok::<
                (),
                SimError,
            >(()),
            r is Ok ==> {
                &&& final(self).topics_seq().len() == old(self).topics_seq().len()
                &&& forall|m: Seq<char>| #[trigger]
                    final(self).has_topic(m) == old(self).has_topic(m)
                &&& forall|m: Seq<char>|
                    m != topic_name@ && old(self).has_topic(m) ==> #[trigger] final(self).topic_of(
                        m,
                    ) == old(self).topic_of(m)
                &&& final(self).topic_of(topic_name@).name == old(self).topic_of(topic_name@).name
                &&& final(self).topic_of(topic_name@).msg_type == old(self).topic_of(
                    topic_name@,
                ).msg_type
                &&& final(self).topic_of(topic_name@).subscribers == old(self).topic_of(
                    topic_name@,
                ).subscribers
                &&& final(self).topic_of(topic_name@).publishers@ == added_once(
                    old(self).topic_of(topic_name@).publishers@,
                    node_name,
                )
            },
    {
        if find_node(&self.nodes, &node_name).is_none() {
            return Err(SimError::NodeNotFound);
        }
        let idx = find_topic(&self.topics, &topic_name);
        match idx {
            None => Err(SimError::TopicNotFound),
            Some(i) => {
                let ghost s_old = self.topics@;
                proof {
                    lemma_topic_at(s_old, topic_name@, i as int);
                }
                let mut t = self.topics.remove(i);
                let ghost t_before = t;
                if !contains_string(&t.publishers, &node_name) {
                    t.publishers.push(node_name);
                }
                self.topics.insert(i, t);
                proof {
                    assert(self.topics@ =~= s_old.update(i as int, t));
                    lemma_topic_update_frame(s_old, i as int, t);
                    assert(t.publishers@ == added_once(t_before.publishers@, node_name));
                    assert(t_before == s_old[i as int]);
                    assert(distinct_strings(t_before.publishers@));
                    lemma_added_once_distinct(t_before.publishers@, node_name);
                    lemma_lists_distinct_after_update(s_old, i as int, t);
                }
                Ok(())
            },
        }
    }

    /// Adds `node_name` to the subscriber list of `topic_name`, if not
    /// already present. The contract mirrors `publish` exactly.
    pub fn subscribe(&mut self, node_name: String, topic_name: String) -> (r: Result<(), SimError>)
        requires
            old(self).wf(),
        ensures
            final(self).wf(),
            final(self).nodes_seq() == old(self).nodes_seq(),
            final(self).messages_seq() == old(self).messages_seq(),
            r is Err ==> final(self).topics_seq() == old(self).topics_seq(),
            !old(self).has_node(node_name@) ==> r == Err::<(), SimError>(SimError::NodeNotFound),
            old(self).has_node(node_name@) && !old(self).has_topic(topic_name@) ==> r == Err::<
                (),
                SimError,
            >(SimError::TopicNotFound),
            old(self).has_node(node_name@) && old(self).has_topic(topic_name@) ==> r == Ok::<
                (),
                SimError,
            >(()),
            r is Ok ==> {
                &&& final(self).topics_seq().len() == old(self).topics_seq().len()
                &&& forall|m: Seq<char>| #[trigger]
                    final(self).has_topic(m) == old(self).has_topic(m)
                &&& forall|m: Seq<char>|
                    m != topic_name@ && old(self).has_topic(m) ==> #[trigger] final(self).topic_of(
                        m,
                    ) == old(self).topic_of(m)
                &&& final(self).topic_of(topic_name@).name == old(self).topic_of(topic_name@).name
                &&& final(self).topic_of(topic_name@).msg_type == old(self).topic_of(
                    topic_name@,
                ).msg_type
                &&& final(self).topic_of(topic_name@).publishers == old(self).topic_of(
                    topic_name@,
                ).publishers
                &&& final(self).topic_of(topic_name@).subscribers@ == added_once(
                    old(self).topic_of(topic_name@).subscribers@,
                    node_name,
                )
            },
    {
        if find_node(&self.nodes, &node_name).is_none() {
            return Err(SimError::NodeNotFound);
        }
        let idx = find_topic(&self.topics, &topic_name);
        match idx {
            None => Err(SimError::TopicNotFound),
            Some(i) => {
                let ghost s_old = self.topics@;
                proof {
                    lemma_topic_at(s_old, topic_name@, i as int);
                }
                let mut t = self.topics.remove(i);
                let ghost t_before = t;
                if !contains_string(&t.subscribers, &node_name) {
                    t.subscribers.push(node_name);
                }
                self.topics.insert(i, t);
                proof {
                    assert(self.topics@ =~= s_old.update(i as int, t));
                    lemma_topic_update_frame(s_old, i as int, t);
                    assert(t.subscribers@ == added_once(t_before.subscribers@, node_name));
                    assert(t_before == s_old[i as int]);
                    assert(distinct_strings(t_before.subscribers@));
                    lemma_added_once_distinct(t_before.subscribers@, node_name);
                    lemma_lists_distinct_after_update(s_old, i as int, t);
                }
                Ok(())
            },
        }
    }

    /// Unconditionally appends a message entry. The topic name is not
    /// checked against the topic registry: the log is a pure record,
    /// not a delivery mechanism.
    pub fn send_message(&mut self, topic: String, data: String, timestamp: Scalar)
        requires
            old(self).wf(),
        ensures
            final(self).wf(),
            final(self).messages_seq() == old(self).messages_seq().push(
                (Ros2Message { topic, data, timestamp }),
            ),
            final(self).nodes_seq() == old(self).nodes_seq(),
            final(self).topics_seq() == old(self).topics_seq(),
    {
        self.messages.push(Ros2Message { topic, data, timestamp });
    }

    /// Empties the message log; nodes and topics are untouched.
    pub fn clear_messages(&mut self)
        requires
            old(self).wf(),
        ensures
            final(self).wf(),
            final(self).messages_seq() == Seq::<Ros2Message>::empty(),
            final(self).nodes_seq() == old(self).nodes_seq(),
            final(self).topics_seq() == old(self).topics_seq(),
    {
        self.messages.clear();
        proof {
            assert(self.messages@ =~= Seq::<Ros2Message>::empty());
        }
    }

    /// Empties all three registries together.
    pub fn clear(&mut self)
        ensures
            final(self).wf(),
            final(self).nodes_seq() == Seq::<Ros2Node>::empty(),
            final(self).topics_seq() == Seq::<Ros2Topic>::empty(),
            final(self).messages_seq() == Seq::<Ros2Message>::empty(),
    {
        self.nodes.clear();
        self.topics.clear();
        self.messages.clear();
        proof {
            assert(self.nodes@ =~= Seq::<Ros2Node>::empty());
            assert(self.topics@ =~= Seq::<Ros2Topic>::empty());
            assert(self.messages@ =~= Seq::<Ros2Message>::empty());
        }
    }

    pub fn get_node_count(&self) -> (r: usize)
        ensures
            r == self.nodes_seq().len(),
    {
        self.nodes.len()
    }

    pub fn get_topic_count(&self) -> (r: usize)
        ensures
            r == self.topics_seq().len(),
    {
        self.topics.len()
    }

    /// The full current node listing, in unspecified order.
    pub fn get_nodes(&self) -> (r: &Vec<Ros2Node>)
        ensures
            r@ == self.nodes_seq(),
    {
        &self.nodes
    }

    /// The full current topic listing, in unspecified order.
    pub fn get_topics(&self) -> (r: &Vec<Ros2Topic>)
        ensures
            r@ == self.topics_seq(),
    {
        &self.topics
    }

    /// The message log, in insertion order.
    pub fn get_messages(&self) -> (r: &Vec<Ros2Message>)
        ensures
            r@ == self.messages_seq(),
    {
        &self.messages
    }
}

/// The registry length after an upsert under the name `m`.
pub open spec fn upsert_topic_len(s: Seq<Ros2Topic>, m: Seq<char>) -> int {
    if topic_has(s, m) {
        s.len() as int
    } else {
        s.len() as int + 1
    }
}

/// Replacing the entry at `i` by one with the same name keeps the
/// registry well-formed and leaves every other lookup unchanged.
proof fn lemma_topic_update_frame(s: Seq<Ros2Topic>, i: int, t: Ros2Topic)
    requires
        distinct_topic_names(s),
        0 <= i < s.len(),
        t.name@ == s[i].name@,
    ensures
        distinct_topic_names(s.update(i, t)),
        topic_has(s, t.name@),
        topic_index_of(s, t.name@) == i,
        topic_lookup(s.update(i, t), t.name@) == t,
        forall|m: Seq<char>| #[trigger] topic_has(s.update(i, t), m) == topic_has(s, m),
        forall|m: Seq<char>|
            m != t.name@ && topic_has(s, m) ==> #[trigger] topic_lookup(s.update(i, t), m)
                == topic_lookup(s, m),
{
    let up = s.update(i, t);
    lemma_topic_at(s, t.name@, i);
    assert forall|k: int| 0 <= k < up.len() implies #[trigger] up[k].name@ == s[k].name@ by {
        if k == i {
            assert(up[k] == t);
        }
    }
    lemma_topic_at(up, t.name@, i);
    assert forall|m: Seq<char>| #[trigger] topic_has(up, m) == topic_has(s, m) by {
        if topic_has(s, m) {
            let j = topic_index_of(s, m);
            assert(up[j].name@ == m);
        }
        if topic_has(up, m) {
            let j = topic_index_of(up, m);
            assert(s[j].name@ == m);
        }
    }
    assert forall|m: Seq<char>| m != t.name@ && topic_has(s, m) implies #[trigger] topic_lookup(
        up,
        m,
    ) == topic_lookup(s, m) by {
        let j = topic_index_of(s, m);
        assert(0 <= j < s.len() && s[j].name@ == m);
        assert(j != i);
        lemma_topic_at(up, m, j);
    }
}

} // verus!
