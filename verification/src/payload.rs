//! Indexed, verifiable payloads, and the checks on a received sequence of them.

use vstd::prelude::*;
use vstd::arithmetic::div_mod::lemma_add_mod_noop;

use crate::text::{decimal, decimal_text};

verus! {

// ----- one payload ---------------------------------------------------------------------

/// The byte a payload carries at some offset behind its index.
pub open spec fn pattern(index: u32, offset: int) -> u8 {
    ((index + offset) % 251) as u8
}

/// The four bytes of a number, in little endian.
pub open spec fn little_endian(n: u32) -> Seq<u8> {
    seq![
        (n % 256) as u8,
        (n / 256 % 256) as u8,
        (n / 65_536 % 256) as u8,
        (n / 16_777_216) as u8,
    ]
}

/// The number whose four bytes, in little endian, come first.
pub open spec fn leading_number(bytes: Seq<u8>) -> u32 {
    (bytes[0] + 256 * bytes[1] + 65_536 * bytes[2] + 16_777_216 * bytes[3]) as u32
}

/// Four bytes write one number, and a number is written in one way.
proof fn lemma_little_endian(n: u32, bytes: Seq<u8>)
    requires
        bytes.len() >= 4,
    ensures
        bytes.subrange(0, 4) == little_endian(n) <==> leading_number(bytes) == n,
{
    if bytes.subrange(0, 4) == little_endian(n) {
        assert(bytes[0] == bytes.subrange(0, 4)[0]);
        assert(bytes[1] == bytes.subrange(0, 4)[1]);
        assert(bytes[2] == bytes.subrange(0, 4)[2]);
        assert(bytes[3] == bytes.subrange(0, 4)[3]);
    }
    if leading_number(bytes) == n {
        assert(bytes.subrange(0, 4) =~= little_endian(n));
    }
}

/// The payload of an index and a size of at least 4 bytes: the index in little
/// endian, then the pattern.
pub open spec fn payload(index: u32, size: u32) -> Seq<u8> {
    little_endian(index) + Seq::new(
        if size > 4 {
            (size - 4) as nat
        } else {
            0
        },
        |k: int| pattern(index, k),
    )
}

/// The index in a payload's first four bytes, if it has them.
pub open spec fn index_in(bytes: Seq<u8>) -> Option<u32> {
    if bytes.len() >= 4 {
        Some(leading_number(bytes))
    } else {
        None
    }
}

/// Whether some bytes are a payload: an index and the pattern that goes with it.
pub open spec fn intact(bytes: Seq<u8>) -> bool {
    &&& bytes.len() >= 4
    &&& forall|k: int|
        4 <= k < bytes.len() ==> #[trigger] bytes[k] == pattern(
            leading_number(bytes),
            k - 4,
        )
}

fn pattern_byte(index: u32, offset: usize) -> (r: u8)
    ensures
        r == pattern(index, offset as int),
{
    proof {
        lemma_add_mod_noop(index as int, offset as int, 251);
    }
    (((index % 251) as usize + offset % 251) % 251) as u8
}

/// Build an indexed, verifiable payload of `size` bytes, of 4 at least.
pub fn make_payload(index: u32, size: u32) -> (r: Vec<u8>)
    ensures
        r@ == payload(index, size),
{
    let rest: u32 = if size > 4 { size - 4 } else { 0 };
    let mut bytes: Vec<u8> = vec![
        (index % 256) as u8,
        (index / 256 % 256) as u8,
        (index / 65_536 % 256) as u8,
        (index / 16_777_216) as u8,
    ];
    assert(bytes@ =~= little_endian(index) + Seq::new(0, |k: int| pattern(index, k)));
    let mut offset: u32 = 0;
    while offset < rest
        invariant
            offset <= rest,
            bytes@ == little_endian(index) + Seq::new(
                offset as nat,
                |k: int| pattern(index, k),
            ),
        decreases rest - offset,
    {
        let ghost was = bytes@;
        bytes.push(pattern_byte(index, offset as usize));
        offset += 1;
        assert(bytes@ =~= little_endian(index) + Seq::new(
            offset as nat,
            |k: int| pattern(index, k),
        ));
    }
    bytes
}

/// The index stored in a payload's first four bytes, if present.
pub fn payload_index(bytes: &[u8]) -> (r: Option<u32>)
    ensures
        r == index_in(bytes@),
{
    if bytes.len() < 4 {
        return None;
    }
    Some(
        bytes[0] as u32 + 256 * bytes[1] as u32 + 65_536 * bytes[2] as u32 + 16_777_216
            * bytes[3] as u32,
    )
}

/// Whether some bytes match what [`make_payload`] builds.
pub fn verify_payload(bytes: &[u8]) -> (r: bool)
    ensures
        r == intact(bytes@),
{
    match payload_index(bytes) {
        None => false,
        Some(index) => {
            let mut k: usize = 4;
            while k < bytes.len()
                invariant
                    4 <= k <= bytes@.len(),
                    index == leading_number(bytes@),
                    forall|j: int| 4 <= j < k ==> #[trigger] bytes@[j] == pattern(index, j - 4),
                decreases bytes@.len() - k,
            {
                if bytes[k] != pattern_byte(index, k - 4) {
                    return false;
                }
                k += 1;
            }
            true
        },
    }
}

/// A payload passes the check and carries its index and its size.
pub proof fn payload_round_trips(index: u32, size: u32)
    ensures
        intact(payload(index, size)),
        index_in(payload(index, size)) == Some(index),
        payload(index, size).len() == if size > 4 { size as nat } else { 4 },
{
    let bytes = payload(index, size);
    assert(bytes.subrange(0, 4) =~= little_endian(index));
    lemma_little_endian(index, bytes);
}

/// The check leaves nothing open: bytes that pass it are the payload of the
/// index they carry and of their own length.
pub proof fn intact_payload_is_made(bytes: Seq<u8>)
    requires
        intact(bytes),
        bytes.len() <= u32::MAX,
    ensures
        bytes == payload(index_in(bytes)->Some_0, bytes.len() as u32),
{
    let index = leading_number(bytes);
    lemma_little_endian(index, bytes);
    assert(bytes =~= payload(index, bytes.len() as u32));
}

// ----- a received sequence -------------------------------------------------------------

/// The contents of each received message.
pub open spec fn byte_views(list: Seq<Vec<u8>>) -> Seq<Seq<u8>> {
    list.map_values(|bytes: Vec<u8>| bytes@)
}

/// The characters of a check's verdict.
pub open spec fn checked(r: Result<(), String>) -> Result<(), Seq<char>> {
    match r {
        Ok(()) => Ok(()),
        Err(detail) => Err(detail@),
    }
}

/// What is wrong with the number of received messages.
pub open spec fn miscounted(received: nat, count: nat) -> Seq<char> {
    "received "@ + decimal(received) + " messages, expected "@ + decimal(count)
}

/// What is wrong with the message at some position.
pub open spec fn misplaced(position: nat, index: u32) -> Seq<char> {
    "message "@ + decimal(position) + " carried index "@ + decimal(index as nat)
}

/// The verdict on a received sequence: as many messages as expected, each intact.
pub open spec fn all_verdict(received: Seq<Seq<u8>>, count: nat) -> Result<(), Seq<char>> {
    if received.len() != count {
        Err(miscounted(received.len(), count))
    } else if exists|i: int| 0 <= i < received.len() && !intact(#[trigger] received[i]) {
        Err("payload failed integrity check"@)
    } else {
        Ok(())
    }
}

/// Whether a message carries its position as its index.
pub open spec fn in_place(received: Seq<Seq<u8>>, position: int) -> bool {
    index_in(received[position]) matches Some(index) && index == position
}

/// The verdict on the order of intact messages, from a position on: the first
/// that carries another index than its position is named.
pub open spec fn order_verdict(received: Seq<Seq<u8>>, position: int) -> Result<(), Seq<char>>
    decreases received.len() - position,
{
    if position >= received.len() {
        Ok(())
    } else {
        match index_in(received[position]) {
            None => Err("payload too short to carry an index"@),
            Some(index) => if index == position {
                order_verdict(received, position + 1)
            } else {
                Err(misplaced(position as nat, index))
            },
        }
    }
}

/// The verdict on a received sequence that must also be in order.
pub open spec fn ordered_verdict(received: Seq<Seq<u8>>, count: nat) -> Result<(), Seq<char>> {
    match all_verdict(received, count) {
        Err(detail) => Err(detail),
        Ok(()) => order_verdict(received, 0),
    }
}

/// Verify that `count` messages arrived and every payload is well formed.
pub fn verify_all(received: &[Vec<u8>], count: u32) -> (r: Result<(), String>)
    ensures
        checked(r) == all_verdict(byte_views(received@), count as nat),
{
    let ghost all = byte_views(received@);
    if received.len() as u64 != count as u64 {
        return Err(
            "received ".to_owned().concat(decimal_text(received.len() as u64).as_str()).concat(
                " messages, expected ",
            ).concat(decimal_text(count as u64).as_str()),
        );
    }
    let mut i: usize = 0;
    while i < received.len()
        invariant
            i <= received@.len(),
            all == byte_views(received@),
            all.len() == count,
            forall|k: int| 0 <= k < i ==> intact(#[trigger] all[k]),
        decreases received@.len() - i,
    {
        if !verify_payload(received[i].as_slice()) {
            assert(!intact(all[i as int]));
            return Err("payload failed integrity check".to_owned());
        }
        i += 1;
    }
    Ok(())
}

/// Verify that payloads arrived in index order `0..count`, each well formed.
pub fn verify_ordered(received: &[Vec<u8>], count: u32) -> (r: Result<(), String>)
    ensures
        checked(r) == ordered_verdict(byte_views(received@), count as nat),
{
    let ghost all = byte_views(received@);
    match verify_all(received, count) {
        Err(detail) => Err(detail),
        Ok(()) => {
            let mut position: usize = 0;
            while position < received.len()
                invariant
                    position <= received@.len(),
                    all == byte_views(received@),
                    ordered_verdict(all, count as nat) == order_verdict(all, position as int),
                decreases received@.len() - position,
            {
                assert(all[position as int] == received@[position as int]@);
                match payload_index(received[position].as_slice()) {
                    None => {
                        return Err("payload too short to carry an index".to_owned());
                    },
                    Some(index) => {
                        if index as u64 != position as u64 {
                            return Err(
                                "message ".to_owned().concat(
                                    decimal_text(position as u64).as_str(),
                                ).concat(" carried index ").concat(
                                    decimal_text(index as u64).as_str(),
                                ),
                            );
                        }
                    },
                }
                position += 1;
            }
            Ok(())
        },
    }
}

/// The verdict of a reader that checks each message in turn, from a position on:
/// first that it is intact, then, where order matters, that it is in place.
pub open spec fn turn_verdict(
    received: Seq<Seq<u8>>,
    ordered: bool,
    position: int,
) -> Result<(), Seq<char>>
    decreases received.len() - position,
{
    if position >= received.len() {
        Ok(())
    } else if !intact(received[position]) {
        Err("payload failed integrity check"@)
    } else if ordered && index_in(received[position])->Some_0 != position {
        Err(misplaced(position as nat, index_in(received[position])->Some_0))
    } else {
        turn_verdict(received, ordered, position + 1)
    }
}

/// The reference peer's verdict on a received sequence.
pub open spec fn in_turn_verdict(
    received: Seq<Seq<u8>>,
    count: nat,
    ordered: bool,
) -> Result<(), Seq<char>> {
    if received.len() != count {
        Err(miscounted(received.len(), count))
    } else {
        turn_verdict(received, ordered, 0)
    }
}

/// Verify a received sequence message by message, as the reference peer does.
pub fn verify_in_turn(received: &[Vec<u8>], count: u32, ordered: bool) -> (r: Result<(), String>)
    ensures
        checked(r) == in_turn_verdict(byte_views(received@), count as nat, ordered),
{
    let ghost all = byte_views(received@);
    if received.len() as u64 != count as u64 {
        return Err(
            "received ".to_owned().concat(decimal_text(received.len() as u64).as_str()).concat(
                " messages, expected ",
            ).concat(decimal_text(count as u64).as_str()),
        );
    }
    let mut position: usize = 0;
    while position < received.len()
        invariant
            position <= received@.len(),
            all == byte_views(received@),
            in_turn_verdict(all, count as nat, ordered) == turn_verdict(
                all,
                ordered,
                position as int,
            ),
        decreases received@.len() - position,
    {
        assert(all[position as int] == received@[position as int]@);
        if !verify_payload(received[position].as_slice()) {
            return Err("payload failed integrity check".to_owned());
        }
        if ordered {
            match payload_index(received[position].as_slice()) {
                None => {},
                Some(index) => {
                    if index as u64 != position as u64 {
                        return Err(
                            "message ".to_owned().concat(
                                decimal_text(position as u64).as_str(),
                            ).concat(" carried index ").concat(
                                decimal_text(index as u64).as_str(),
                            ),
                        );
                    }
                },
            }
        }
        position += 1;
    }
    Ok(())
}

/// The payloads of indices `0..count`, in order.
pub open spec fn corpus(count: nat, size: u32) -> Seq<Seq<u8>> {
    Seq::new(count, |i: int| payload(i as u32, size))
}

proof fn lemma_corpus_in_order(count: nat, size: u32, position: int)
    requires
        count <= u32::MAX,
        0 <= position <= count,
    ensures
        order_verdict(corpus(count, size), position) == Ok::<(), Seq<char>>(()),
        turn_verdict(corpus(count, size), true, position) == Ok::<(), Seq<char>>(()),
        turn_verdict(corpus(count, size), false, position) == Ok::<(), Seq<char>>(()),
    decreases count - position,
{
    if position < count {
        payload_round_trips(position as u32, size);
        lemma_corpus_in_order(count, size, position + 1);
    }
}

/// The corpus a peer sends passes every check, with and without order.
pub proof fn corpus_passes(count: nat, size: u32)
    requires
        count <= u32::MAX,
    ensures
        all_verdict(corpus(count, size), count) == Ok::<(), Seq<char>>(()),
        ordered_verdict(corpus(count, size), count) == Ok::<(), Seq<char>>(()),
        in_turn_verdict(corpus(count, size), count, true) == Ok::<(), Seq<char>>(()),
        in_turn_verdict(corpus(count, size), count, false) == Ok::<(), Seq<char>>(()),
{
    assert forall|i: int| 0 <= i < count implies intact(#[trigger] corpus(count, size)[i]) by {
        payload_round_trips(i as u32, size);
    }
    lemma_corpus_in_order(count, size, 0);
}

/// A sequence passes the ordered check exactly if it has `count` messages and each
/// is intact and carries its position; the two ways to check agree on that.
pub proof fn ordered_check_is_exact(received: Seq<Seq<u8>>, count: nat)
    ensures
        ordered_verdict(received, count) is Ok <==> received.len() == count && forall|i: int|
            0 <= i < count ==> intact(#[trigger] received[i]) && in_place(received, i),
        in_turn_verdict(received, count, true) is Ok <==> ordered_verdict(received, count) is Ok,
        in_turn_verdict(received, count, false) is Ok <==> all_verdict(received, count) is Ok,
{
    if received.len() == count {
        lemma_order_is_exact(received, 0);
        lemma_turn_is_exact(received, true, 0);
        lemma_turn_is_exact(received, false, 0);
    }
}

proof fn lemma_order_is_exact(received: Seq<Seq<u8>>, position: int)
    requires
        0 <= position <= received.len(),
    ensures
        order_verdict(received, position) is Ok <==> forall|i: int|
            position <= i < received.len() ==> in_place(received, i),
    decreases received.len() - position,
{
    if position < received.len() {
        lemma_order_is_exact(received, position + 1);
        if order_verdict(received, position) is Ok {
            assert forall|i: int| position <= i < received.len() implies in_place(received, i) by {
                if i > position {
                    assert(in_place(received, i));
                }
            }
        } else if index_in(received[position]) matches Some(index) && index == position {
            assert(exists|i: int| position + 1 <= i < received.len() && !in_place(received, i));
        } else {
            assert(!in_place(received, position));
        }
    }
}

proof fn lemma_turn_is_exact(received: Seq<Seq<u8>>, ordered: bool, position: int)
    requires
        0 <= position <= received.len(),
    ensures
        turn_verdict(received, ordered, position) is Ok <==> forall|i: int|
            position <= i < received.len() ==> intact(#[trigger] received[i]) && (ordered
                ==> in_place(received, i)),
    decreases received.len() - position,
{
    if position < received.len() {
        lemma_turn_is_exact(received, ordered, position + 1);
        if turn_verdict(received, ordered, position) is Ok {
            assert forall|i: int| position <= i < received.len() implies intact(
                #[trigger] received[i],
            ) && (ordered ==> in_place(received, i)) by {}
        } else if intact(received[position]) && (ordered ==> in_place(received, position)) {
            let i = choose|i: int|
                position + 1 <= i < received.len() && !(intact(#[trigger] received[i]) && (ordered
                    ==> in_place(received, i)));
            assert(position <= i);
        } else {
            assert(received[position] == received[position]);
        }
    }
}

/// A payload is its index, least significant byte first, and then a pattern that runs through
/// 251 values from the index on; it has the size it was asked for, four bytes at least.
pub proof fn payload_is_its_index_and_pattern(index: u32, size: u32, k: int)
    ensures
        ({
            let bytes = payload(index, size);
            &&& bytes.len() == if size < 4 {
                4
            } else {
                size as int
            }
            &&& bytes[0] + 256 * bytes[1] + 65_536 * bytes[2] + 16_777_216 * bytes[3] == index
            &&& 4 <= k < bytes.len() ==> bytes[k] == (index + (k - 4)) % 251
        }),
{
    payload_round_trips(index, size);
}

/// Only the corpus passes: what passes the unordered check is so many payloads, and what
/// passes the ordered one is the payload of each place in turn.
pub proof fn only_payloads_pass(received: Seq<Seq<u8>>, count: nat, i: int)
    requires
        0 <= i < received.len(),
        received[i].len() <= u32::MAX,
    ensures
        all_verdict(received, count) is Ok ==> received.len() == count && exists|index: u32|
            received[i] == #[trigger] payload(index, received[i].len() as u32),
        ordered_verdict(received, count) is Ok ==> received.len() == count && i <= u32::MAX
            && received[i] == payload(i as u32, received[i].len() as u32),
        received.len() != count ==> all_verdict(received, count) is Err && ordered_verdict(
            received,
            count,
        ) is Err,
{
    ordered_check_is_exact(received, count);
    if all_verdict(received, count) is Ok {
        assert(intact(received[i]));
        intact_payload_is_made(received[i]);
        let index = index_in(received[i])->Some_0;
        assert(received[i] == payload(index, received[i].len() as u32));
    }
    if ordered_verdict(received, count) is Ok {
        assert(in_place(received, i));
    }
}

/// The checks say what is wrong: too few or too many messages first, then a payload that is not
/// intact, then the first that is out of its place.
pub proof fn checks_name_what_is_wrong(received: Seq<Seq<u8>>, count: nat, i: int)
    ensures
        received.len() != count ==> all_verdict(received, count) == Err::<(), Seq<char>>(
            "received "@ + decimal(received.len()) + " messages, expected "@ + decimal(count),
        ),
        received.len() == count && 0 <= i < count && !intact(received[i]) ==> all_verdict(
            received,
            count,
        ) == Err::<(), Seq<char>>("payload failed integrity check"@) && ordered_verdict(
            received,
            count,
        ) == all_verdict(received, count),
{
}

} // verus!
