use vstd::prelude::*;
use crate::buffer::{open_frame, parse_spec, payload_of, unpadded_len, unpadded_length, Buffer};
use crate::error::ReaderError;

verus! {

/// Start byte of the frames that configure the reader.
pub const START_SETUP: u8 = 0xd5;

/// Start byte of the frames that work on cards.
pub const START_DATA: u8 = 0xd6;

/// Length of a card identifier.
pub const CARD_ID_LEN: usize = 8;

/// Offset of the card count in an inventory response.
pub const INVENTORY_COUNT_AT: usize = 4;

/// Offset of the first card record in an inventory response.
pub const INVENTORY_CARDS_AT: usize = 6;

/// Size of one card record in an inventory response.
pub const INVENTORY_RECORD_LEN: usize = 9;

/// Offset of the card data in a read-card response.
pub const READ_DATA_AT: usize = 12;

/// The payload of the command that reads a card.
pub open spec fn read_card_payload(card_id: Seq<u8>) -> Seq<u8> {
    seq![0x02u8] + card_id + seq![0x00u8, 0x09u8, 0x0cu8]
}

/// The payload of the command that writes `data` to a card.
pub open spec fn write_card_payload(card_id: Seq<u8>, data: Seq<u8>) -> Seq<u8> {
    seq![0x04u8] + card_id + seq![0x00u8, 0x09u8, 0x00u8] + data + Seq::new(8, |i: int| 0u8)
}

/// The identifier of the `i`-th card of an inventory response.
pub open spec fn inventory_card(response: Seq<u8>, i: int) -> Seq<u8> {
    response.subrange(6 + 9 * i, 14 + 9 * i)
}

/// Whether a response is long enough for the card count it declares.
pub open spec fn inventory_complete(response: Seq<u8>) -> bool {
    response.len() >= 6 + 9 * response[4]
}

/// Where the card data of a read-card response ends: after the trailing
/// zero padding and two more bytes are dropped.
pub open spec fn read_card_end(response: Seq<u8>) -> int {
    unpadded_len(response) - 2
}

/// The card data of a successful read-card response.
pub open spec fn card_data(response: Seq<u8>) -> Seq<u8> {
    if read_card_end(response) <= 12 {
        Seq::empty()
    } else {
        response.subrange(12, read_card_end(response))
    }
}

/// The three frames that put the reader into its working mode, in the order
/// in which they are sent.
pub fn setup_commands() -> (r: Vec<Buffer>)
    ensures
        r@.len() == 3,
        forall|i: int| 0 <= i < 3 ==> (#[trigger] r@[i]).wf() && !r@[i].is_finalized(),
        r@[0].bytes() == open_frame(START_SETUP, seq![0x04u8, 0x00u8, 0x11u8]),
        r@[1].bytes() == open_frame(
            START_DATA,
            seq![0x13u8, 0x06u8, 0x01u8, 0x00u8, 0x02u8, 0x00u8, 0x03u8, 0x00u8, 0x04u8, 0x00u8, 0x0bu8, 0x00u8, 0x0au8, 0x00u8],
        ),
        r@[2].bytes() == open_frame(START_DATA, seq![0x58u8, 0x00u8, 0x03u8, 0x02u8, 0x3au8, 0x02u8, 0x00u8]),
{
    let mut commands: Vec<Buffer> = Vec::new();
    let mut first = Buffer::new(START_SETUP);
    first.write(0x04);
    first.write(0x00);
    first.write(0x11);
    let mut second = Buffer::new(START_DATA);
    second.write(0x13);
    second.write(0x06);
    second.write(0x01);
    second.write(0x00);
    second.write(0x02);
    second.write(0x00);
    second.write(0x03);
    second.write(0x00);
    second.write(0x04);
    second.write(0x00);
    second.write(0x0b);
    second.write(0x00);
    second.write(0x0a);
    second.write(0x00);
    let mut third = Buffer::new(START_DATA);
    third.write(0x58);
    third.write(0x00);
    third.write(0x03);
    third.write(0x02);
    third.write(0x3a);
    third.write(0x02);
    third.write(0x00);
    assert(first.bytes() =~= open_frame(START_SETUP, seq![0x04u8, 0x00u8, 0x11u8]));
    assert(second.bytes() =~= open_frame(
        START_DATA,
        seq![0x13u8, 0x06u8, 0x01u8, 0x00u8, 0x02u8, 0x00u8, 0x03u8, 0x00u8, 0x04u8, 0x00u8, 0x0bu8, 0x00u8, 0x0au8, 0x00u8],
    ));
    assert(third.bytes() =~= open_frame(START_DATA, seq![0x58u8, 0x00u8, 0x03u8, 0x02u8, 0x3au8, 0x02u8, 0x00u8]));
    commands.push(first);
    commands.push(second);
    commands.push(third);
    commands
}

/// The command that lists the cards in the reader's field.
pub fn inventory_command() -> (r: Buffer)
    ensures
        r.wf(),
        !r.is_finalized(),
        r.bytes() == open_frame(START_DATA, seq![0xfeu8, 0x00u8, 0x07u8]),
{
    let mut command = Buffer::new(START_DATA);
    command.write(0xfe);
    command.write(0x00);
    command.write(0x07);
    assert(command.bytes() =~= open_frame(START_DATA, seq![0xfeu8, 0x00u8, 0x07u8]));
    command
}

/// Decodes the response to the inventory command into the identifiers of
/// the cards it lists, in order.
pub fn decode_inventory(response: &[u8]) -> (r: Result<Vec<[u8; 8]>, ReaderError>)
    ensures
        response@.len() < 5 ==> r == Err::<Vec<[u8; 8]>, ReaderError>(ReaderError::WrongResponse),
        response@.len() >= 5 && response@[4] == 0
            ==> r == Err::<Vec<[u8; 8]>, ReaderError>(ReaderError::NoCard),
        response@.len() >= 5 && response@[4] != 0 && !inventory_complete(response@)
            ==> r == Err::<Vec<[u8; 8]>, ReaderError>(ReaderError::WrongResponse),
        response@.len() >= 5 && response@[4] != 0 && inventory_complete(response@) ==> r is Ok,
        r matches Ok(cards) ==> cards@.len() == response@[4]
            && forall|i: int| 0 <= i < cards@.len() ==> (#[trigger] cards@[i])@ == inventory_card(response@, i),
{
    if response.len() < 5 {
        return Err(ReaderError::WrongResponse);
    }
    let count = response[INVENTORY_COUNT_AT];
    if count == 0 {
        return Err(ReaderError::NoCard);
    }
    if response.len() < INVENTORY_CARDS_AT + INVENTORY_RECORD_LEN * (count as usize) {
        return Err(ReaderError::WrongResponse);
    }
    let mut cards: Vec<[u8; 8]> = Vec::with_capacity(count as usize);
    let mut i: usize = 0;
    while i < count as usize
        invariant
            i <= count,
            count == response@[4],
            response@.len() >= 6 + 9 * count,
            cards@.len() == i,
            forall|m: int| 0 <= m < i ==> (#[trigger] cards@[m])@ == inventory_card(response@, m),
        decreases count - i,
    {
        let from = INVENTORY_CARDS_AT + INVENTORY_RECORD_LEN * i;
        let mut card: [u8; 8] = [0u8; 8];
        let mut k: usize = 0;
        while k < CARD_ID_LEN
            invariant
                k <= 8,
                from == 6 + 9 * i,
                i < count,
                response@.len() >= 6 + 9 * count,
                forall|m: int| 0 <= m < k ==> card@[m] == response@[from + m],
            decreases 8 - k,
        {
            card[k] = response[from + k];
            k = k + 1;
        }
        assert(card@ =~= inventory_card(response@, i as int));
        cards.push(card);
        i = i + 1;
    }
    Ok(cards)
}

/// The command that reads the data of a card; the identifier must be eight
/// bytes long.
pub fn read_card_command(card_id: &[u8]) -> (r: Result<Buffer, ReaderError>)
    ensures
        card_id@.len() != 8 <==> r == Err::<Buffer, ReaderError>(ReaderError::WrongCardId),
        card_id@.len() == 8 ==> r is Ok,
        r matches Ok(b) ==> b.wf() && !b.is_finalized()
            && b.bytes() == open_frame(START_DATA, read_card_payload(card_id@)),
{
    if card_id.len() != CARD_ID_LEN {
        return Err(ReaderError::WrongCardId);
    }
    let mut command = Buffer::new(START_DATA);
    command.write(0x02);
    command.write_all(card_id);
    command.write_all(&[0x00, 0x09, 0x0c]);
    assert(command.bytes() =~= open_frame(START_DATA, read_card_payload(card_id@)));
    Ok(command)
}

/// Decodes the response to a read-card command into the card's data.
pub fn decode_read_card(response: &[u8]) -> (r: Result<Vec<u8>, ReaderError>)
    ensures
        response@.len() < 3 ==> r == Err::<Vec<u8>, ReaderError>(ReaderError::WrongResponse),
        response@.len() >= 3 && response@[1] != 0
            ==> r == Err::<Vec<u8>, ReaderError>(ReaderError::NoCard),
        response@.len() >= 3 && response@[1] == 0 ==> r is Ok,
        r matches Ok(data) ==> data@ == card_data(response@),
{
    if response.len() < 3 {
        return Err(ReaderError::WrongResponse);
    }
    if response[1] != 0x00 {
        return Err(ReaderError::NoCard);
    }
    let len = unpadded_length(response);
    let mut data: Vec<u8> = Vec::new();
    if len < READ_DATA_AT + 2 {
        assert(data@ =~= card_data(response@));
        return Ok(data);
    }
    let end = len - 2;
    let mut i: usize = READ_DATA_AT;
    while i < end
        invariant
            READ_DATA_AT <= i <= end,
            end <= response@.len(),
            end == read_card_end(response@),
            data@ == response@.subrange(12, i as int),
        decreases end - i,
    {
        data.push(response[i]);
        assert(response@.subrange(12, i + 1) =~= response@.subrange(12, i as int).push(response@[i as int]));
        i = i + 1;
    }
    Ok(data)
}

/// The command that writes `data` to a card; the identifier must be eight
/// bytes long.
pub fn write_card_command(card_id: &[u8], data: &[u8]) -> (r: Result<Buffer, ReaderError>)
    ensures
        card_id@.len() != 8 <==> r == Err::<Buffer, ReaderError>(ReaderError::WrongCardId),
        card_id@.len() == 8 ==> r is Ok,
        r matches Ok(b) ==> b.wf() && !b.is_finalized()
            && b.bytes() == open_frame(START_DATA, write_card_payload(card_id@, data@)),
{
    if card_id.len() != CARD_ID_LEN {
        return Err(ReaderError::WrongCardId);
    }
    let mut command = Buffer::new(START_DATA);
    command.write(0x04);
    command.write_all(card_id);
    command.write(0x00);
    command.write(0x09);
    command.write(0x00);
    command.write_all(data);
    let zeros: [u8; 8] = [0u8; 8];
    command.write_all(&zeros);
    assert(zeros@ =~= Seq::new(8, |i: int| 0u8));
    assert(command.bytes() =~= open_frame(START_DATA, write_card_payload(card_id@, data@)));
    Ok(command)
}

/// Decodes the response to a write-card command: a non-zero status byte
/// means that the card is absent.
pub fn decode_write_card(response: &[u8]) -> (r: Result<(), ReaderError>)
    ensures
        response@.len() < 2 ==> r == Err::<(), ReaderError>(ReaderError::WrongResponse),
        response@.len() >= 2 && response@[1] != 0 ==> r == Err::<(), ReaderError>(ReaderError::NoCard),
        response@.len() >= 2 && response@[1] == 0 ==> r == Ok::<(), ReaderError>(()),
{
    if response.len() < 2 {
        return Err(ReaderError::WrongResponse);
    }
    if response[1] != 0x00 {
        return Err(ReaderError::NoCard);
    }
    Ok(())
}

/// Decodes what the transport handed back after a command: `queued` is the
/// number of bytes it reported, `raw` the record it filled. The result is the
/// payload of the frame it holds.
pub fn decode_response(queued: usize, raw: [u8; 256]) -> (r: Result<Vec<u8>, ReaderError>)
    ensures
        queued == 0 ==> r == Err::<Vec<u8>, ReaderError>(ReaderError::EmptyResponse),
        queued > 0 ==> match parse_spec(raw@) {
            Err(e) => r == Err::<Vec<u8>, ReaderError>(e),
            Ok(frame) => if payload_of(frame, true).len() == 0 {
                r == Err::<Vec<u8>, ReaderError>(ReaderError::WrongResponse)
            } else {
                r matches Ok(v) && v@ == payload_of(frame, true)
            },
        },
{
    if queued == 0 {
        return Err(ReaderError::EmptyResponse);
    }
    let frame = Buffer::from_record(raw)?;
    match frame.data() {
        Some(d) => Ok(vstd::slice::slice_to_vec(d)),
        None => Err(ReaderError::WrongResponse),
    }
}

} // verus!
