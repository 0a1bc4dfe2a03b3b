//! The identifiers of nodes.

use std::str::FromStr;

use vstd::prelude::*;

verus! {

/// The digits of the hexadecimal form, in lower case.
pub const HEX_DIGITS: &'static str = "0123456789abcdef";

/// The hexadecimal form of bytes, two digits for each.
pub open spec fn hex_of(bytes: Seq<u8>) -> Seq<char> {
    Seq::new(
        bytes.len() * 2,
        |i: int|
            if i % 2 == 0 {
                HEX_DIGITS@[(bytes[i / 2] / 16) as int]
            } else {
                HEX_DIGITS@[(bytes[i / 2] % 16) as int]
            },
    )
}

/// Writes bytes as hexadecimal digits.
pub fn hex_lower(bytes: &[u8]) -> (text: String)
    ensures
        text@ == hex_of(bytes@),
{
    let mut text: String = String::new();
    let mut next: usize = 0;
    proof {
        reveal_strlit("0123456789abcdef");
    }
    while next < bytes.len()
        invariant
            next <= bytes@.len(),
            HEX_DIGITS@.len() == 16,
            HEX_DIGITS.is_ascii(),
            text@ == hex_of(bytes@.take(next as int)),
        decreases bytes@.len() - next,
    {
        let high: usize = (bytes[next] / 16) as usize;
        let low: usize = (bytes[next] % 16) as usize;
        text.append(HEX_DIGITS.substring_ascii(high, high + 1));
        text.append(HEX_DIGITS.substring_ascii(low, low + 1));
        proof {
            let longer = bytes@.take(next + 1);
            assert forall|i: int| 0 <= i < text@.len() implies text@[i] == hex_of(longer)[i] by {
                if i < 2 * next {
                    assert(longer[i / 2] == bytes@.take(next as int)[i / 2]);
                }
            }
            assert(text@ =~= hex_of(longer));
        }
        next = next + 1;
    }
    assert(bytes@.take(next as int) =~= bytes@);
    text
}

/// The identifier of a node: the bytes of its public key.
#[derive(Debug, Clone, Copy, PartialEq, Eq)]
pub struct NodeId {
    pub bytes: [u8; 32],
}

impl View for NodeId {
    type V = Seq<u8>;

    open spec fn view(&self) -> Seq<u8> {
        self.bytes@
    }
}

/// Whether `a` comes before `b` in the order of their bytes.
pub open spec fn precedes(a: Seq<u8>, b: Seq<u8>) -> bool {
    exists|i: int| differ_first_at(a, b, i) && a[i] < b[i]
}

/// Whether `a` and `b` agree before position `i` and differ there.
pub open spec fn differ_first_at(a: Seq<u8>, b: Seq<u8>, i: int) -> bool {
    &&& 0 <= i < a.len()
    &&& i < b.len()
    &&& a[i] != b[i]
    &&& forall|j: int| 0 <= j < i ==> a[j] == b[j]
}

/// How two identifiers relate in the order of their bytes.
#[derive(Debug, Clone, Copy, PartialEq, Eq, Structural)]
pub enum Relation {
    Before,
    Same,
    After,
}

impl NodeId {
    /// Two identifiers are the same when their bytes are.
    pub proof fn same_bytes_same_id(a: NodeId, b: NodeId)
        ensures
            a@ == b@ ==> a == b,
    {
        if a@ == b@ {
            assert(a.bytes =~= b.bytes);
        }
    }

    /// Relates two identifiers in the order of their bytes.
    pub fn relate(&self, other: &NodeId) -> (relation: Relation)
        ensures
            match relation {
                Relation::Before => precedes(self@, other@),
                Relation::Same => self@ == other@,
                Relation::After => precedes(other@, self@),
            },
    {
        let mut next: usize = 0;
        while next < 32
            invariant
                next <= 32,
                self.bytes@.len() == 32,
                other.bytes@.len() == 32,
                forall|j: int| 0 <= j < next ==> self.bytes@[j] == other.bytes@[j],
            decreases 32 - next,
        {
            let ours: u8 = self.bytes[next];
            let theirs: u8 = other.bytes[next];
            if ours < theirs {
                assert(differ_first_at(self@, other@, next as int));
                return Relation::Before;
            }
            if theirs < ours {
                assert(differ_first_at(other@, self@, next as int));
                return Relation::After;
            }
            next = next + 1;
        }
        assert(self@ =~= other@);
        Relation::Same
    }

    /// Returns the first five bytes in hexadecimal form, for people to read.
    pub fn fmt_short(&self) -> (text: String)
        ensures
            text@ == hex_of(self@.take(5)),
    {
        hex_lower(vstd::slice::slice_subrange(self.bytes.as_slice(), 0, 5))
    }

    /// Returns all bytes in hexadecimal form.
    pub fn to_text(&self) -> (text: String)
        ensures
            text@ == hex_of(self@),
    {
        hex_lower(self.bytes.as_slice())
    }

    /// Reads an identifier from its text. Text that is none gives the reason why.
    pub fn from_text(text: &str) -> (result: Result<NodeId, String>)
        ensures
            result matches Ok(id) ==> reads_as(text@, id@),
            result matches Ok(id) ==> reads_as(hex_of(id@), id@),
            result matches Err(reason) ==> is_no_key(text@, reason@),
            forall|id: NodeId|
                #![trigger hex_of(id@)]
                text@ == hex_of(id@) ==> (result matches Ok(found) ==> found == id),
    {
        match parse_node_id(text) {
            Ok(bytes) => {
                let found: NodeId = NodeId { bytes };
                assert forall|id: NodeId| text@ == #[trigger] hex_of(id@) implies found == id by {
                    NodeId::same_bytes_same_id(found, id);
                }
                Ok(found)
            },
            Err(reason) => Err(reason),
        }
    }
}

/// What `iroh_base::NodeId::from_str` makes of a text: the bytes of the key, or the text
/// of the error.
pub uninterp spec fn node_id_from_str(text: Seq<char>) -> Result<Seq<u8>, Seq<char>>;

/// Whether a text is read as the key with the given bytes.
pub open spec fn reads_as(text: Seq<char>, bytes: Seq<u8>) -> bool {
    node_id_from_str(text) matches Ok(found) && found == bytes
}

/// Whether a text is refused for the given reason.
pub open spec fn is_no_key(text: Seq<char>, reason: Seq<char>) -> bool {
    node_id_from_str(text) matches Err(given) && given == reason
}

/// `iroh_base::NodeId::from_str`, which reads a public key from hexadecimal digits or
/// from base 32. A key that it accepts it accepts in hexadecimal form too, as the same
/// key; and of a text in the hexadecimal form of 32 bytes it makes the key with these
/// bytes or nothing.
#[verifier::external_body]
fn parse_node_id(text: &str) -> (result: Result<[u8; 32], String>)
    ensures
        result is Ok <==> node_id_from_str(text@) is Ok,
        result matches Ok(bytes) ==> reads_as(text@, bytes@),
        result matches Ok(bytes) ==> reads_as(hex_of(bytes@), bytes@),
        result matches Err(reason) ==> is_no_key(text@, reason@),
        forall|bytes: Seq<u8>|
            bytes.len() == 32 && text@ == #[trigger] hex_of(bytes) ==> (result matches Ok(found)
                ==> found@ == bytes),
{
    match iroh_base::NodeId::from_str(text) {
        Ok(id) => Ok(*id.as_bytes()),
        Err(error) => Err(error.to_string()),
    }
}

/// Nothing comes before itself, and of two identifiers at most one comes first.
pub proof fn precedes_is_strict(a: Seq<u8>, b: Seq<u8>)
    requires
        precedes(a, b),
    ensures
        a != b,
        !precedes(b, a),
{
    let i = choose|i: int| differ_first_at(a, b, i) && a[i] < b[i];
    if precedes(b, a) {
        let k = choose|k: int| differ_first_at(b, a, k) && b[k] < a[k];
        if i < k {
            assert(a[i] == b[i]);
        } else if k < i {
            assert(a[k] == b[k]);
        }
    }
}

/// What comes before something that comes before a third comes before the third.
pub proof fn precedes_is_transitive(a: Seq<u8>, b: Seq<u8>, c: Seq<u8>)
    requires
        precedes(a, b),
        precedes(b, c),
    ensures
        precedes(a, c),
{
    let i = choose|i: int| differ_first_at(a, b, i) && a[i] < b[i];
    let k = choose|k: int| differ_first_at(b, c, k) && b[k] < c[k];
    if i <= k {
        assert(differ_first_at(a, c, i));
    } else {
        assert(differ_first_at(a, c, k));
    }
}

/// The hexadecimal form has two digits for each byte, the first for its upper half and the
/// second for its lower half, and of different bytes it is different.
pub proof fn hex_tells_bytes_apart(a: Seq<u8>, b: Seq<u8>, at: int)
    ensures
        hex_of(a).len() == 2 * a.len(),
        0 <= at < a.len() ==> hex_of(a)[2 * at] == "0123456789abcdef"@[a[at] as int / 16],
        0 <= at < a.len() ==> hex_of(a)[2 * at + 1] == "0123456789abcdef"@[a[at] as int % 16],
        hex_of(a) == hex_of(b) ==> a == b,
{
    reveal_strlit("0123456789abcdef");
    if 0 <= at < a.len() {
        assert((2 * at) / 2 == at && (2 * at) % 2 == 0);
        assert((2 * at + 1) / 2 == at && (2 * at + 1) % 2 == 1);
    }
    if hex_of(a) == hex_of(b) {
        assert(hex_of(a).len() == 2 * a.len() && hex_of(b).len() == 2 * b.len());
        assert forall|i: int| 0 <= i < a.len() implies a[i] == b[i] by {
            assert((2 * i) / 2 == i && (2 * i) % 2 == 0);
            assert((2 * i + 1) / 2 == i && (2 * i + 1) % 2 == 1);
            assert(hex_of(a)[2 * i] == hex_of(b)[2 * i]);
            assert(hex_of(a)[2 * i + 1] == hex_of(b)[2 * i + 1]);
        }
        assert(a =~= b);
    }
}

/// Of two identifiers one comes first unless they are the same, and it is the one with the
/// lesser byte where they first differ.
pub proof fn precedes_is_total(a: Seq<u8>, b: Seq<u8>, at: int)
    requires
        a.len() == b.len(),
    ensures
        a == b || precedes(a, b) || precedes(b, a),
        0 <= at < a.len() && a.take(at) == b.take(at) && a[at] < b[at] ==> precedes(a, b),
{
    if 0 <= at < a.len() && a.take(at) == b.take(at) && a[at] < b[at] {
        assert forall|j: int| 0 <= j < at implies a[j] == b[j] by {
            assert(a.take(at)[j] == b.take(at)[j]);
        }
        assert(differ_first_at(a, b, at));
    }
    if a != b {
        first_difference(a, b, 0);
    }
}

proof fn first_difference(a: Seq<u8>, b: Seq<u8>, from: int)
    requires
        a.len() == b.len(),
        a != b,
        0 <= from <= a.len(),
        forall|j: int| 0 <= j < from ==> a[j] == b[j],
    ensures
        precedes(a, b) || precedes(b, a),
    decreases a.len() - from,
{
    if from == a.len() {
        assert(a =~= b);
    } else if a[from] == b[from] {
        first_difference(a, b, from + 1);
    } else if a[from] < b[from] {
        assert(differ_first_at(a, b, from));
    } else {
        assert(differ_first_at(b, a, from));
    }
}

/// A text is read as one key or refused for one reason, never both.
pub proof fn texts_are_read_one_way(text: Seq<char>, bytes: Seq<u8>, reason: Seq<char>)
    ensures
        reads_as(text, bytes) <==> node_id_from_str(text) == Ok::<Seq<u8>, Seq<char>>(bytes),
        is_no_key(text, reason) <==> node_id_from_str(text) == Err::<Seq<u8>, Seq<char>>(reason),
{
}

/// Two identifiers are related the other way round when they change places, are the same exactly
/// if their bytes are, and else are told apart by the first byte in which they differ.
pub proof fn relations_turn_round(
    a: &NodeId,
    b: &NodeId,
    forth: Relation,
    back: Relation,
    at: int,
)
    requires
        call_ensures(NodeId::relate, (a, b), forth),
        call_ensures(NodeId::relate, (b, a), back),
    ensures
        forth is Same <==> a@ == b@,
        forth is Before <==> back is After,
        forth is After <==> back is Before,
        0 <= at < 32 && a@[at] < b@[at] && (forall|j: int| 0 <= j < at ==> #[trigger] a@[j] == b@[j])
            ==> forth is Before,
        0 <= at < 32 && a@[at] > b@[at] && (forall|j: int| 0 <= j < at ==> #[trigger] a@[j] == b@[j])
            ==> forth is After,
{
    if precedes(a@, b@) {
        precedes_is_strict(a@, b@);
    }
    if precedes(b@, a@) {
        precedes_is_strict(b@, a@);
    }
    if 0 <= at < 32 && (forall|j: int| 0 <= j < at ==> #[trigger] a@[j] == b@[j]) {
        if a@[at] < b@[at] {
            assert(differ_first_at(a@, b@, at));
        }
        if a@[at] > b@[at] {
            assert forall|j: int| 0 <= j < at implies b@[j] == a@[j] by {
                assert(a@[j] == b@[j]);
            }
            assert(differ_first_at(b@, a@, at));
        }
    }
}

/// An identifier that was read from its text is written as a text that reads as the same one, and
/// the short form is how that text begins.
pub proof fn written_identifiers_are_read_again(
    id: &NodeId,
    text: String,
    short: String,
    source: &str,
    result: Result<NodeId, String>,
)
    requires
        call_ensures(NodeId::to_text, (id,), text),
        call_ensures(NodeId::fmt_short, (id,), short),
        call_ensures(NodeId::from_text, (source,), result),
        source@ == text@,
    ensures
        result matches Ok(found) ==> found == *id,
        text@.len() == 64,
        short@ == text@.take(10),
{
    assert(id@.len() == 32);
    assert(hex_of(id@).len() == 64);
    assert(hex_of(id@.take(5)).len() == 10);
    assert(short@ =~= text@.take(10));
}

} // verus!
