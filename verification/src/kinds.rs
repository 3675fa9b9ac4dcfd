//! The kinds of messages that the game and its demo client exchange.
//!
//! Their layout in memory is left to the compiler, so their bytes are laid
//! out here, within the memory size of the type: a tag byte first, and the id
//! that a `CustomMsg` carries in the second pointer-sized slot, in the byte
//! order of the machine.
use crate::message::{slice_range, Messageable};
use crate::pod::{decode_ne, encode_ne, fit, lemma_ne_fits, lemma_primitive_sizes, ne_bytes,
    ne_value, push_fitted, zeros, Pod};
use vstd::layout::size_of;
use vstd::prelude::*;

verus! {

/// Kinds of message of the demo client; the player commands carry an id.
#[derive(Clone, Copy, Debug, PartialEq, Eq, Structural)]
pub enum CustomMsg {
    Ping,
    Interact(usize),
    MovePlayer(usize),
    Player(usize),
}

/// The tag byte of each kind of `CustomMsg`.
pub open spec fn custom_msg_tag(m: CustomMsg) -> u8 {
    match m {
        CustomMsg::Ping => 0,
        CustomMsg::Interact(_) => 1,
        CustomMsg::MovePlayer(_) => 2,
        CustomMsg::Player(_) => 3,
    }
}

/// The id that a `CustomMsg` carries; `Ping` carries none and travels as 0.
pub open spec fn custom_msg_payload(m: CustomMsg) -> usize {
    match m {
        CustomMsg::Ping => 0,
        CustomMsg::Interact(id) => id,
        CustomMsg::MovePlayer(id) => id,
        CustomMsg::Player(id) => id,
    }
}

/// The bytes of a `CustomMsg` before they are fitted to its memory size: the
/// tag, zeros up to the second pointer-sized slot, then the id.
pub open spec fn custom_msg_image(m: CustomMsg) -> Seq<u8> {
    let w = size_of::<usize>();
    seq![custom_msg_tag(m)] + zeros((w - 1) as nat) + ne_bytes(custom_msg_payload(m) as nat, w)
}

/// A `CustomMsg` travels as its tag and id, fitted to its memory size. An
/// unknown tag, or a size too small for both, reads as `Ping`.
impl Pod for CustomMsg {
    open spec fn spec_encode(v: CustomMsg) -> Seq<u8> {
        fit(custom_msg_image(v), size_of::<CustomMsg>())
    }

    open spec fn spec_decode(bytes: Seq<u8>) -> CustomMsg {
        let w = size_of::<usize>();
        if bytes.len() < 2 * w {
            CustomMsg::Ping
        } else {
            let id = ne_value(bytes.subrange(w as int, 2 * w as int)) as usize;
            if bytes[0] == 1 {
                CustomMsg::Interact(id)
            } else if bytes[0] == 2 {
                CustomMsg::MovePlayer(id)
            } else if bytes[0] == 3 {
                CustomMsg::Player(id)
            } else {
                CustomMsg::Ping
            }
        }
    }

    open spec fn spec_round_trips() -> bool {
        size_of::<CustomMsg>() >= 2 * size_of::<usize>()
    }

    proof fn lemma_encoding(v: CustomMsg) {
        lemma_primitive_sizes();
        let w = size_of::<usize>();
        lemma_ne_fits(custom_msg_payload(v) as nat, w);
        let img = custom_msg_image(v);
        assert(img.len() == 2 * w);
        if Self::spec_round_trips() {
            let e = Self::spec_encode(v);
            assert(e.subrange(w as int, 2 * w as int) =~= ne_bytes(
                custom_msg_payload(v) as nat,
                w,
            ));
            assert(e[0] == custom_msg_tag(v));
        }
    }

    fn encode(&self, out: &mut Vec<u8>) {
        proof {
            lemma_primitive_sizes();
        }
        let w = core::mem::size_of::<usize>();
        let (tag, id): (u8, usize) = match *self {
            CustomMsg::Ping => (0, 0),
            CustomMsg::Interact(id) => (1, id),
            CustomMsg::MovePlayer(id) => (2, id),
            CustomMsg::Player(id) => (3, id),
        };
        let mut image: Vec<u8> = Vec::new();
        image.push(tag);
        let mut i: usize = 1;
        while i < w
            invariant
                1 <= i <= w,
                w == size_of::<usize>(),
                image@ == seq![tag] + zeros((i - 1) as nat),
            decreases w - i,
        {
            image.push(0u8);
            assert(seq![tag] + zeros(i as nat) =~= (seq![tag] + zeros((i - 1) as nat)).push(
                0u8,
            ));
            i = i + 1;
        }
        encode_ne(id as u64, w, &mut image);
        assert(image@ =~= custom_msg_image(*self));
        push_fitted(out, image.as_slice(), core::mem::size_of::<CustomMsg>());
    }

    fn decode(bytes: &[u8]) -> (v: CustomMsg) {
        proof {
            lemma_primitive_sizes();
        }
        let w = core::mem::size_of::<usize>();
        if bytes.len() < 2 * w {
            return CustomMsg::Ping;
        }
        let id = decode_ne(slice_range(bytes, w, 2 * w)) as usize;
        let tag = bytes[0];
        if tag == 1 {
            CustomMsg::Interact(id)
        } else if tag == 2 {
            CustomMsg::MovePlayer(id)
        } else if tag == 3 {
            CustomMsg::Player(id)
        } else {
            CustomMsg::Ping
        }
    }
}

impl Messageable for CustomMsg {

}

/// Kinds of message between the game client and its server.
#[derive(Clone, Copy, Debug, PartialEq, Eq, Structural)]
pub enum GameMessage {
    GetId,
    SyncWorld,
    Ping,
    Interact,
    MovePlayer,
    Player,
}

/// The tag byte of each kind of `GameMessage`: its place in the declaration.
pub open spec fn game_message_tag(m: GameMessage) -> u8 {
    match m {
        GameMessage::GetId => 0,
        GameMessage::SyncWorld => 1,
        GameMessage::Ping => 2,
        GameMessage::Interact => 3,
        GameMessage::MovePlayer => 4,
        GameMessage::Player => 5,
    }
}

/// A `GameMessage` travels as its tag byte, fitted to its memory size. An
/// unknown tag, or no byte at all, reads as `GetId`.
impl Pod for GameMessage {
    open spec fn spec_encode(v: GameMessage) -> Seq<u8> {
        fit(seq![game_message_tag(v)], size_of::<GameMessage>())
    }

    open spec fn spec_decode(bytes: Seq<u8>) -> GameMessage {
        if bytes.len() == 0 {
            GameMessage::GetId
        } else if bytes[0] == 1 {
            GameMessage::SyncWorld
        } else if bytes[0] == 2 {
            GameMessage::Ping
        } else if bytes[0] == 3 {
            GameMessage::Interact
        } else if bytes[0] == 4 {
            GameMessage::MovePlayer
        } else if bytes[0] == 5 {
            GameMessage::Player
        } else {
            GameMessage::GetId
        }
    }

    open spec fn spec_round_trips() -> bool {
        size_of::<GameMessage>() >= 1
    }

    proof fn lemma_encoding(v: GameMessage) {
    }

    fn encode(&self, out: &mut Vec<u8>) {
        let tag: u8 = match *self {
            GameMessage::GetId => 0,
            GameMessage::SyncWorld => 1,
            GameMessage::Ping => 2,
            GameMessage::Interact => 3,
            GameMessage::MovePlayer => 4,
            GameMessage::Player => 5,
        };
        let mut image: Vec<u8> = Vec::new();
        image.push(tag);
        assert(image@ =~= seq![game_message_tag(*self)]);
        push_fitted(out, image.as_slice(), core::mem::size_of::<GameMessage>());
    }

    fn decode(bytes: &[u8]) -> (v: GameMessage) {
        if bytes.len() == 0 {
            return GameMessage::GetId;
        }
        let tag = bytes[0];
        if tag == 1 {
            GameMessage::SyncWorld
        } else if tag == 2 {
            GameMessage::Ping
        } else if tag == 3 {
            GameMessage::Interact
        } else if tag == 4 {
            GameMessage::MovePlayer
        } else if tag == 5 {
            GameMessage::Player
        } else {
            GameMessage::GetId
        }
    }
}

impl Messageable for GameMessage {

}

} // verus!

verus! {

/// A `GameMessage` travels as its place in the declaration (GetId 0,
/// SyncWorld 1, Ping 2, Interact 3, MovePlayer 4, Player 5), followed by
/// zeros; a first byte of 0 to 5 reads back as the kind at that place.
pub proof fn lemma_game_message_bytes(bytes: Seq<u8>)
    requires
        size_of::<GameMessage>() >= 1,
        bytes.len() >= 1,
    ensures
        GameMessage::spec_encode(GameMessage::GetId)[0] == 0,
        GameMessage::spec_encode(GameMessage::SyncWorld)[0] == 1,
        GameMessage::spec_encode(GameMessage::Ping)[0] == 2,
        GameMessage::spec_encode(GameMessage::Interact)[0] == 3,
        GameMessage::spec_encode(GameMessage::MovePlayer)[0] == 4,
        GameMessage::spec_encode(GameMessage::Player)[0] == 5,
        forall|m: GameMessage, i: int|
            1 <= i < size_of::<GameMessage>() ==> #[trigger] GameMessage::spec_encode(m)[i] == 0,
        bytes[0] == 0 ==> GameMessage::spec_decode(bytes) == GameMessage::GetId,
        bytes[0] == 1 ==> GameMessage::spec_decode(bytes) == GameMessage::SyncWorld,
        bytes[0] == 2 ==> GameMessage::spec_decode(bytes) == GameMessage::Ping,
        bytes[0] == 3 ==> GameMessage::spec_decode(bytes) == GameMessage::Interact,
        bytes[0] == 4 ==> GameMessage::spec_decode(bytes) == GameMessage::MovePlayer,
        bytes[0] == 5 ==> GameMessage::spec_decode(bytes) == GameMessage::Player,
{
}

/// A `CustomMsg` travels as its tag (Ping 0, Interact 1, MovePlayer 2,
/// Player 3), zeros up to the second pointer-sized slot, the image of the id
/// it carries there (0 for Ping), then zeros; it reads back from such bytes.
pub proof fn lemma_custom_msg_bytes(id: usize, bytes: Seq<u8>)
    requires
        size_of::<CustomMsg>() >= 2 * size_of::<usize>(),
        bytes.len() == size_of::<CustomMsg>(),
    ensures
        CustomMsg::spec_encode(CustomMsg::Ping)[0] == 0,
        CustomMsg::spec_encode(CustomMsg::Interact(id))[0] == 1,
        CustomMsg::spec_encode(CustomMsg::MovePlayer(id))[0] == 2,
        CustomMsg::spec_encode(CustomMsg::Player(id))[0] == 3,
        CustomMsg::spec_encode(CustomMsg::Interact(id)).subrange(
            size_of::<usize>() as int,
            2 * size_of::<usize>() as int,
        ) == usize::spec_encode(id),
        CustomMsg::spec_encode(CustomMsg::MovePlayer(id)).subrange(
            size_of::<usize>() as int,
            2 * size_of::<usize>() as int,
        ) == usize::spec_encode(id),
        CustomMsg::spec_encode(CustomMsg::Player(id)).subrange(
            size_of::<usize>() as int,
            2 * size_of::<usize>() as int,
        ) == usize::spec_encode(id),
        CustomMsg::spec_encode(CustomMsg::Ping).subrange(
            size_of::<usize>() as int,
            2 * size_of::<usize>() as int,
        ) == usize::spec_encode(0),
        forall|m: CustomMsg, i: int|
            (1 <= i < size_of::<usize>() || 2 * size_of::<usize>() <= i < size_of::<CustomMsg>())
                ==> #[trigger] CustomMsg::spec_encode(m)[i] == 0,
        ({
            let w = size_of::<usize>() as int;
            let carried = usize::spec_decode(bytes.subrange(w, 2 * w));
            &&& bytes[0] == 1 ==> CustomMsg::spec_decode(bytes) == CustomMsg::Interact(carried)
            &&& bytes[0] == 2 ==> CustomMsg::spec_decode(bytes) == CustomMsg::MovePlayer(carried)
            &&& bytes[0] == 3 ==> CustomMsg::spec_decode(bytes) == CustomMsg::Player(carried)
            &&& (bytes[0] == 0 || bytes[0] > 3) ==> CustomMsg::spec_decode(bytes) == CustomMsg::Ping
        }),
{
    lemma_primitive_sizes();
    let w = size_of::<usize>();
    assert forall|m: CustomMsg| #![auto]
        CustomMsg::spec_encode(m).subrange(w as int, 2 * w as int) == usize::spec_encode(
            custom_msg_payload(m),
        ) by {
        lemma_ne_fits(custom_msg_payload(m) as nat, w);
        assert(CustomMsg::spec_encode(m).subrange(w as int, 2 * w as int) =~= ne_bytes(
            custom_msg_payload(m) as nat,
            w,
        ));
    }
    assert(custom_msg_payload(CustomMsg::Interact(id)) == id);
    assert(custom_msg_payload(CustomMsg::MovePlayer(id)) == id);
    assert(custom_msg_payload(CustomMsg::Player(id)) == id);
    assert(custom_msg_payload(CustomMsg::Ping) == 0);
    assert forall|m: CustomMsg, i: int|
        (1 <= i < w || 2 * w <= i < size_of::<CustomMsg>()) implies #[trigger] CustomMsg::spec_encode(
        m,
    )[i] == 0 by {
        lemma_ne_fits(custom_msg_payload(m) as nat, w);
    }
}

} // verus!
