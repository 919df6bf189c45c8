//! Packets of the play phase.

use vstd::prelude::*;
use crate::ext::{ReadError, ReadOutcome, Reader};
use crate::protocol::packet::{lemma_pair_read, Packet, PacketData};

verus! {

/// The server places the player in a world.
pub struct JoinGame {
    pub entity_id: i32,
    pub game_mode: u8,
    pub dimension: i32,
    pub difficulty: u8,
    pub max_players: u8,
    pub level_type: String,
    pub reduced_debug_info: bool,
}

impl DeepView for JoinGame {
    type V = (i32, (u8, (i32, (u8, (u8, (Seq<char>, bool))))));

    open spec fn deep_view(&self) -> (i32, (u8, (i32, (u8, (u8, (Seq<char>, bool)))))) {
        (self.entity_id.deep_view(), (self.game_mode.deep_view(), (self.dimension.deep_view(), (self.difficulty.deep_view(), (self.max_players.deep_view(), (self.level_type.deep_view(), self.reduced_debug_info.deep_view()))))))
    }
}

/// The wire layout of the fields, in declaration order.
impl PacketData for JoinGame {
    open spec fn spec_read(bytes: Seq<u8>) -> ReadOutcome<(i32, (u8, (i32, (u8, (u8, (Seq<char>, bool))))))> {
        <(i32, (u8, (i32, (u8, (u8, (String, bool)))))) as PacketData>::spec_read(bytes)
    }

    open spec fn spec_writable(v: (i32, (u8, (i32, (u8, (u8, (Seq<char>, bool))))))) -> bool {
        <(i32, (u8, (i32, (u8, (u8, (String, bool)))))) as PacketData>::spec_writable(v)
    }

    open spec fn spec_write(v: (i32, (u8, (i32, (u8, (u8, (Seq<char>, bool))))))) -> Seq<u8> {
        <(i32, (u8, (i32, (u8, (u8, (String, bool)))))) as PacketData>::spec_write(v)
    }

    proof fn lemma_roundtrip(v: (i32, (u8, (i32, (u8, (u8, (Seq<char>, bool)))))), rest: Seq<u8>) {
        <(i32, (u8, (i32, (u8, (u8, (String, bool)))))) as PacketData>::lemma_roundtrip(v, rest);
    }

    fn read_checked(buf: &mut Reader) -> (r: Result<JoinGame, ReadError>) {
        match <(i32, (u8, (i32, (u8, (u8, (String, bool)))))) as PacketData>::read_checked(buf) {
            Ok((entity_id, (game_mode, (dimension, (difficulty, (max_players, (level_type, reduced_debug_info))))))) => Ok(JoinGame { entity_id, game_mode, dimension, difficulty, max_players, level_type, reduced_debug_info }),
            Err(e) => Err(e),
        }
    }

    fn write(&self, buf: &mut Vec<u8>) {
        self.entity_id.write(buf);
        self.game_mode.write(buf);
        self.dimension.write(buf);
        self.difficulty.write(buf);
        self.max_players.write(buf);
        self.level_type.write(buf);
        self.reduced_debug_info.write(buf);
        assert(buf@ =~= old(buf)@ + Self::spec_write(self.deep_view()));
    }
}

impl Packet for JoinGame {
    const ID: i32 = 0x23;

    open spec fn spec_id() -> i32 {
        0x23
    }

    proof fn lemma_id() {
    }
}

/// A chat message from the client.
#[derive(Debug)]
pub struct ChatRequest {
    pub message: String,
}

impl DeepView for ChatRequest {
    type V = Seq<char>;

    open spec fn deep_view(&self) -> Seq<char> {
        self.message.deep_view()
    }
}

/// The wire layout of the fields, in declaration order.
impl PacketData for ChatRequest {
    open spec fn spec_read(bytes: Seq<u8>) -> ReadOutcome<Seq<char>> {
        <String as PacketData>::spec_read(bytes)
    }

    open spec fn spec_writable(v: Seq<char>) -> bool {
        <String as PacketData>::spec_writable(v)
    }

    open spec fn spec_write(v: Seq<char>) -> Seq<u8> {
        <String as PacketData>::spec_write(v)
    }

    proof fn lemma_roundtrip(v: Seq<char>, rest: Seq<u8>) {
        <String as PacketData>::lemma_roundtrip(v, rest);
    }

    fn read_checked(buf: &mut Reader) -> (r: Result<ChatRequest, ReadError>) {
        match <String as PacketData>::read_checked(buf) {
            Ok(message) => Ok(ChatRequest { message }),
            Err(e) => Err(e),
        }
    }

    fn write(&self, buf: &mut Vec<u8>) {
        self.message.write(buf);
        assert(buf@ =~= old(buf)@ + Self::spec_write(self.deep_view()));
    }
}

impl Packet for ChatRequest {
    const ID: i32 = 0x02;

    open spec fn spec_id() -> i32 {
        0x02
    }

    proof fn lemma_id() {
    }
}

/// A chat message to the client, with where it shows.
#[derive(Debug)]
pub struct ChatResponse {
    pub message: String,
    pub position: u8,
}

impl DeepView for ChatResponse {
    type V = (Seq<char>, u8);

    open spec fn deep_view(&self) -> (Seq<char>, u8) {
        (self.message.deep_view(), self.position.deep_view())
    }
}

/// The wire layout of the fields, in declaration order.
impl PacketData for ChatResponse {
    open spec fn spec_read(bytes: Seq<u8>) -> ReadOutcome<(Seq<char>, u8)> {
        <(String, u8) as PacketData>::spec_read(bytes)
    }

    open spec fn spec_writable(v: (Seq<char>, u8)) -> bool {
        <(String, u8) as PacketData>::spec_writable(v)
    }

    open spec fn spec_write(v: (Seq<char>, u8)) -> Seq<u8> {
        <(String, u8) as PacketData>::spec_write(v)
    }

    proof fn lemma_roundtrip(v: (Seq<char>, u8), rest: Seq<u8>) {
        <(String, u8) as PacketData>::lemma_roundtrip(v, rest);
    }

    fn read_checked(buf: &mut Reader) -> (r: Result<ChatResponse, ReadError>) {
        match <(String, u8) as PacketData>::read_checked(buf) {
            Ok((message, position)) => Ok(ChatResponse { message, position }),
            Err(e) => Err(e),
        }
    }

    fn write(&self, buf: &mut Vec<u8>) {
        self.message.write(buf);
        self.position.write(buf);
        assert(buf@ =~= old(buf)@ + Self::spec_write(self.deep_view()));
    }
}

impl Packet for ChatResponse {
    const ID: i32 = 0x0F;

    open spec fn spec_id() -> i32 {
        0x0F
    }

    proof fn lemma_id() {
    }
}

/// A keep-alive probe and its answer.
#[derive(Debug)]
pub struct KeepAlive {
    pub random_id: i16,
}

impl DeepView for KeepAlive {
    type V = i16;

    open spec fn deep_view(&self) -> i16 {
        self.random_id.deep_view()
    }
}

/// The wire layout of the fields, in declaration order.
impl PacketData for KeepAlive {
    open spec fn spec_read(bytes: Seq<u8>) -> ReadOutcome<i16> {
        <i16 as PacketData>::spec_read(bytes)
    }

    open spec fn spec_writable(v: i16) -> bool {
        <i16 as PacketData>::spec_writable(v)
    }

    open spec fn spec_write(v: i16) -> Seq<u8> {
        <i16 as PacketData>::spec_write(v)
    }

    proof fn lemma_roundtrip(v: i16, rest: Seq<u8>) {
        <i16 as PacketData>::lemma_roundtrip(v, rest);
    }

    fn read_checked(buf: &mut Reader) -> (r: Result<KeepAlive, ReadError>) {
        match <i16 as PacketData>::read_checked(buf) {
            Ok(random_id) => Ok(KeepAlive { random_id }),
            Err(e) => Err(e),
        }
    }

    fn write(&self, buf: &mut Vec<u8>) {
        self.random_id.write(buf);
        assert(buf@ =~= old(buf)@ + Self::spec_write(self.deep_view()));
    }
}

impl Packet for KeepAlive {
    const ID: i32 = 0x21;

    open spec fn spec_id() -> i32 {
        0x21
    }

    proof fn lemma_id() {
    }
}

} // verus!

verus! {

/// A join-game packet is written as its entity id, then game mode, then dimension, then difficulty, then player limit, then level type, then reduced-debug flag in that field's own
/// wire layout, in declaration order.
pub proof fn law_join_game_layout(p: JoinGame)
    ensures
        <JoinGame as PacketData>::spec_write(p.deep_view()) == <i32 as PacketData>::spec_write(p.entity_id.deep_view()) + <u8 as PacketData>::spec_write(p.game_mode.deep_view()) + <i32 as PacketData>::spec_write(p.dimension.deep_view()) + <u8 as PacketData>::spec_write(p.difficulty.deep_view()) + <u8 as PacketData>::spec_write(p.max_players.deep_view()) + <String as PacketData>::spec_write(p.level_type.deep_view()) + <bool as PacketData>::spec_write(p.reduced_debug_info.deep_view()),
{
    assert(<JoinGame as PacketData>::spec_write(p.deep_view()) =~= <i32 as PacketData>::spec_write(p.entity_id.deep_view()) + <u8 as PacketData>::spec_write(p.game_mode.deep_view()) + <i32 as PacketData>::spec_write(p.dimension.deep_view()) + <u8 as PacketData>::spec_write(p.difficulty.deep_view()) + <u8 as PacketData>::spec_write(p.max_players.deep_view()) + <String as PacketData>::spec_write(p.level_type.deep_view()) + <bool as PacketData>::spec_write(p.reduced_debug_info.deep_view()));
}

/// A join-game packet is read as its entity id, then game mode, then dimension, then difficulty, then player limit, then level type, then reduced-debug flag,
/// each from where the one before ended: where
/// the fields read so from the front of `bytes`, the packet read is the
/// packet of those fields.
pub proof fn law_join_game_read(p: JoinGame, bytes: Seq<u8>, n1: nat, n2: nat, n3: nat, n4: nat, n5: nat, n6: nat, n7: nat)
    requires
        n1 + n2 + n3 + n4 + n5 + n6 + n7 <= bytes.len(),
        <i32 as PacketData>::spec_read(bytes) == ReadOutcome::Parsed(p.entity_id.deep_view(), n1),
        <u8 as PacketData>::spec_read(bytes.skip(n1 as int)) == ReadOutcome::Parsed(p.game_mode.deep_view(), n2),
        <i32 as PacketData>::spec_read(bytes.skip((n1 + n2) as int)) == ReadOutcome::Parsed(p.dimension.deep_view(), n3),
        <u8 as PacketData>::spec_read(bytes.skip((n1 + n2 + n3) as int)) == ReadOutcome::Parsed(p.difficulty.deep_view(), n4),
        <u8 as PacketData>::spec_read(bytes.skip((n1 + n2 + n3 + n4) as int)) == ReadOutcome::Parsed(p.max_players.deep_view(), n5),
        <String as PacketData>::spec_read(bytes.skip((n1 + n2 + n3 + n4 + n5) as int)) == ReadOutcome::Parsed(p.level_type.deep_view(), n6),
        <bool as PacketData>::spec_read(bytes.skip((n1 + n2 + n3 + n4 + n5 + n6) as int)) == ReadOutcome::Parsed(p.reduced_debug_info.deep_view(), n7),
    ensures
        <JoinGame as PacketData>::spec_read(bytes) == ReadOutcome::Parsed(p.deep_view(), n1 + n2 + n3 + n4 + n5 + n6 + n7),
{
    assert(bytes.skip((n1 + n2 + n3 + n4 + n5) as int).skip(n6 as int) =~= bytes.skip((n1 + n2 + n3 + n4 + n5 + n6) as int));
    lemma_pair_read::<String, bool>(bytes.skip((n1 + n2 + n3 + n4 + n5) as int), p.level_type.deep_view(), n6, p.reduced_debug_info.deep_view(), n7);
    assert(bytes.skip((n1 + n2 + n3 + n4) as int).skip(n5 as int) =~= bytes.skip((n1 + n2 + n3 + n4 + n5) as int));
    lemma_pair_read::<u8, (String, bool)>(bytes.skip((n1 + n2 + n3 + n4) as int), p.max_players.deep_view(), n5, (p.level_type.deep_view(), p.reduced_debug_info.deep_view()), n6 + n7);
    assert(bytes.skip((n1 + n2 + n3) as int).skip(n4 as int) =~= bytes.skip((n1 + n2 + n3 + n4) as int));
    lemma_pair_read::<u8, (u8, (String, bool))>(bytes.skip((n1 + n2 + n3) as int), p.difficulty.deep_view(), n4, (p.max_players.deep_view(), (p.level_type.deep_view(), p.reduced_debug_info.deep_view())), n5 + n6 + n7);
    assert(bytes.skip((n1 + n2) as int).skip(n3 as int) =~= bytes.skip((n1 + n2 + n3) as int));
    lemma_pair_read::<i32, (u8, (u8, (String, bool)))>(bytes.skip((n1 + n2) as int), p.dimension.deep_view(), n3, (p.difficulty.deep_view(), (p.max_players.deep_view(), (p.level_type.deep_view(), p.reduced_debug_info.deep_view()))), n4 + n5 + n6 + n7);
    assert(bytes.skip(n1 as int).skip(n2 as int) =~= bytes.skip((n1 + n2) as int));
    lemma_pair_read::<u8, (i32, (u8, (u8, (String, bool))))>(bytes.skip(n1 as int), p.game_mode.deep_view(), n2, (p.dimension.deep_view(), (p.difficulty.deep_view(), (p.max_players.deep_view(), (p.level_type.deep_view(), p.reduced_debug_info.deep_view())))), n3 + n4 + n5 + n6 + n7);
    lemma_pair_read::<i32, (u8, (i32, (u8, (u8, (String, bool)))))>(bytes, p.entity_id.deep_view(), n1, (p.game_mode.deep_view(), (p.dimension.deep_view(), (p.difficulty.deep_view(), (p.max_players.deep_view(), (p.level_type.deep_view(), p.reduced_debug_info.deep_view()))))), n2 + n3 + n4 + n5 + n6 + n7);
}

/// A chat request is written as its message in that field's own
/// wire layout.
pub proof fn law_chat_request_layout(p: ChatRequest)
    ensures
        <ChatRequest as PacketData>::spec_write(p.deep_view()) == <String as PacketData>::spec_write(p.message.deep_view()),
{
}

/// A chat request is read as its message: where
/// the fields read so from the front of `bytes`, the packet read is the
/// packet of those fields.
pub proof fn law_chat_request_read(p: ChatRequest, bytes: Seq<u8>, n1: nat)
    requires
        n1 <= bytes.len(),
        <String as PacketData>::spec_read(bytes) == ReadOutcome::Parsed(p.message.deep_view(), n1),
    ensures
        <ChatRequest as PacketData>::spec_read(bytes) == ReadOutcome::Parsed(p.deep_view(), n1),
{
}

/// A chat message is written as its message, then position in that field's own
/// wire layout, in declaration order.
pub proof fn law_chat_response_layout(p: ChatResponse)
    ensures
        <ChatResponse as PacketData>::spec_write(p.deep_view()) == <String as PacketData>::spec_write(p.message.deep_view()) + <u8 as PacketData>::spec_write(p.position.deep_view()),
{
    assert(<ChatResponse as PacketData>::spec_write(p.deep_view()) =~= <String as PacketData>::spec_write(p.message.deep_view()) + <u8 as PacketData>::spec_write(p.position.deep_view()));
}

/// A chat message is read as its message, then position,
/// each from where the one before ended: where
/// the fields read so from the front of `bytes`, the packet read is the
/// packet of those fields.
pub proof fn law_chat_response_read(p: ChatResponse, bytes: Seq<u8>, n1: nat, n2: nat)
    requires
        n1 + n2 <= bytes.len(),
        <String as PacketData>::spec_read(bytes) == ReadOutcome::Parsed(p.message.deep_view(), n1),
        <u8 as PacketData>::spec_read(bytes.skip(n1 as int)) == ReadOutcome::Parsed(p.position.deep_view(), n2),
    ensures
        <ChatResponse as PacketData>::spec_read(bytes) == ReadOutcome::Parsed(p.deep_view(), n1 + n2),
{
    lemma_pair_read::<String, u8>(bytes, p.message.deep_view(), n1, p.position.deep_view(), n2);
}

/// A keep-alive is written as its id in that field's own
/// wire layout.
pub proof fn law_keep_alive_layout(p: KeepAlive)
    ensures
        <KeepAlive as PacketData>::spec_write(p.deep_view()) == <i16 as PacketData>::spec_write(p.random_id.deep_view()),
{
}

/// A keep-alive is read as its id: where
/// the fields read so from the front of `bytes`, the packet read is the
/// packet of those fields.
pub proof fn law_keep_alive_read(p: KeepAlive, bytes: Seq<u8>, n1: nat)
    requires
        n1 <= bytes.len(),
        <i16 as PacketData>::spec_read(bytes) == ReadOutcome::Parsed(p.random_id.deep_view(), n1),
    ensures
        <KeepAlive as PacketData>::spec_read(bytes) == ReadOutcome::Parsed(p.deep_view(), n1),
{
}

} // verus!
