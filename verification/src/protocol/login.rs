//! Packets of the login phase.

use vstd::prelude::*;
use crate::ext::{ReadError, ReadOutcome, Reader};
use crate::protocol::packet::{lemma_pair_read, Packet, PacketData, VarInt};

verus! {

/// The client starts logging in under a name.
#[derive(Debug)]
pub struct LoginStart {
    pub name: String,
}

impl DeepView for LoginStart {
    type V = Seq<char>;

    open spec fn deep_view(&self) -> Seq<char> {
        self.name.deep_view()
    }
}

/// The wire layout of the fields, in declaration order.
impl PacketData for LoginStart {
    open spec fn spec_read(bytes: Seq<u8>) -> ReadOutcome<Seq<char>> {
        <String as PacketData>::spec_read(bytes)
    }

    open spec fn spec_writable(v: Seq<char>) -> bool {
        <String as PacketData>::spec_writable(v)
    }

    open spec fn spec_write(v: Seq<char>) -> Seq<u8> {
        <String as PacketData>::spec_write(v)
    }

    proof fn lemma_roundtrip(v: Seq<char>, rest: Seq<u8>) {
        <String as PacketData>::lemma_roundtrip(v, rest);
    }

    fn read_checked(buf: &mut Reader) -> (r: Result<LoginStart, ReadError>) {
        match <String as PacketData>::read_checked(buf) {
            Ok(name) => Ok(LoginStart { name }),
            Err(e) => Err(e),
        }
    }

    fn write(&self, buf: &mut Vec<u8>) {
        self.name.write(buf);
        assert(buf@ =~= old(buf)@ + Self::spec_write(self.deep_view()));
    }
}

impl Packet for LoginStart {
    const ID: i32 = 0x00;

    open spec fn spec_id() -> i32 {
        0x00
    }

    proof fn lemma_id() {
    }
}

/// The server ends the login, giving a reason.
#[derive(Debug)]
pub struct Disconnect {
    pub reason: String,
}

impl DeepView for Disconnect {
    type V = Seq<char>;

    open spec fn deep_view(&self) -> Seq<char> {
        self.reason.deep_view()
    }
}

/// The wire layout of the fields, in declaration order.
impl PacketData for Disconnect {
    open spec fn spec_read(bytes: Seq<u8>) -> ReadOutcome<Seq<char>> {
        <String as PacketData>::spec_read(bytes)
    }

    open spec fn spec_writable(v: Seq<char>) -> bool {
        <String as PacketData>::spec_writable(v)
    }

    open spec fn spec_write(v: Seq<char>) -> Seq<u8> {
        <String as PacketData>::spec_write(v)
    }

    proof fn lemma_roundtrip(v: Seq<char>, rest: Seq<u8>) {
        <String as PacketData>::lemma_roundtrip(v, rest);
    }

    fn read_checked(buf: &mut Reader) -> (r: Result<Disconnect, ReadError>) {
        match <String as PacketData>::read_checked(buf) {
            Ok(reason) => Ok(Disconnect { reason }),
            Err(e) => Err(e),
        }
    }

    fn write(&self, buf: &mut Vec<u8>) {
        self.reason.write(buf);
        assert(buf@ =~= old(buf)@ + Self::spec_write(self.deep_view()));
    }
}

impl Packet for Disconnect {
    const ID: i32 = 0x00;

    open spec fn spec_id() -> i32 {
        0x00
    }

    proof fn lemma_id() {
    }
}

/// The server turns on compression above a size threshold.
#[derive(Debug)]
pub struct SetCompression {
    pub threshold: VarInt,
}

impl DeepView for SetCompression {
    type V = i32;

    open spec fn deep_view(&self) -> i32 {
        self.threshold.deep_view()
    }
}

/// The wire layout of the fields, in declaration order.
impl PacketData for SetCompression {
    open spec fn spec_read(bytes: Seq<u8>) -> ReadOutcome<i32> {
        <VarInt as PacketData>::spec_read(bytes)
    }

    open spec fn spec_writable(v: i32) -> bool {
        <VarInt as PacketData>::spec_writable(v)
    }

    open spec fn spec_write(v: i32) -> Seq<u8> {
        <VarInt as PacketData>::spec_write(v)
    }

    proof fn lemma_roundtrip(v: i32, rest: Seq<u8>) {
        <VarInt as PacketData>::lemma_roundtrip(v, rest);
    }

    fn read_checked(buf: &mut Reader) -> (r: Result<SetCompression, ReadError>) {
        match <VarInt as PacketData>::read_checked(buf) {
            Ok(threshold) => Ok(SetCompression { threshold }),
            Err(e) => Err(e),
        }
    }

    fn write(&self, buf: &mut Vec<u8>) {
        self.threshold.write(buf);
        assert(buf@ =~= old(buf)@ + Self::spec_write(self.deep_view()));
    }
}

impl Packet for SetCompression {
    const ID: i32 = 0x03;

    open spec fn spec_id() -> i32 {
        0x03
    }

    proof fn lemma_id() {
    }
}

/// The server accepts the login.
#[derive(Debug)]
pub struct LoginSuccess {
    pub uuid: String,
    pub username: String,
}

impl DeepView for LoginSuccess {
    type V = (Seq<char>, Seq<char>);

    open spec fn deep_view(&self) -> (Seq<char>, Seq<char>) {
        (self.uuid.deep_view(), self.username.deep_view())
    }
}

/// The wire layout of the fields, in declaration order.
impl PacketData for LoginSuccess {
    open spec fn spec_read(bytes: Seq<u8>) -> ReadOutcome<(Seq<char>, Seq<char>)> {
        <(String, String) as PacketData>::spec_read(bytes)
    }

    open spec fn spec_writable(v: (Seq<char>, Seq<char>)) -> bool {
        <(String, String) as PacketData>::spec_writable(v)
    }

    open spec fn spec_write(v: (Seq<char>, Seq<char>)) -> Seq<u8> {
        <(String, String) as PacketData>::spec_write(v)
    }

    proof fn lemma_roundtrip(v: (Seq<char>, Seq<char>), rest: Seq<u8>) {
        <(String, String) as PacketData>::lemma_roundtrip(v, rest);
    }

    fn read_checked(buf: &mut Reader) -> (r: Result<LoginSuccess, ReadError>) {
        match <(String, String) as PacketData>::read_checked(buf) {
            Ok((uuid, username)) => Ok(LoginSuccess { uuid, username }),
            Err(e) => Err(e),
        }
    }

    fn write(&self, buf: &mut Vec<u8>) {
        self.uuid.write(buf);
        self.username.write(buf);
        assert(buf@ =~= old(buf)@ + Self::spec_write(self.deep_view()));
    }
}

impl Packet for LoginSuccess {
    const ID: i32 = 0x02;

    open spec fn spec_id() -> i32 {
        0x02
    }

    proof fn lemma_id() {
    }
}

/// The client answers an encryption request.
#[derive(Debug)]
pub struct EncryptionResponse {
    pub shared_secret: Vec<u8>,
    pub verify_token: Vec<u8>,
}

impl DeepView for EncryptionResponse {
    type V = (Seq<u8>, Seq<u8>);

    open spec fn deep_view(&self) -> (Seq<u8>, Seq<u8>) {
        (self.shared_secret.deep_view(), self.verify_token.deep_view())
    }
}

/// The wire layout of the fields, in declaration order.
impl PacketData for EncryptionResponse {
    open spec fn spec_read(bytes: Seq<u8>) -> ReadOutcome<(Seq<u8>, Seq<u8>)> {
        <(Vec<u8>, Vec<u8>) as PacketData>::spec_read(bytes)
    }

    open spec fn spec_writable(v: (Seq<u8>, Seq<u8>)) -> bool {
        <(Vec<u8>, Vec<u8>) as PacketData>::spec_writable(v)
    }

    open spec fn spec_write(v: (Seq<u8>, Seq<u8>)) -> Seq<u8> {
        <(Vec<u8>, Vec<u8>) as PacketData>::spec_write(v)
    }

    proof fn lemma_roundtrip(v: (Seq<u8>, Seq<u8>), rest: Seq<u8>) {
        <(Vec<u8>, Vec<u8>) as PacketData>::lemma_roundtrip(v, rest);
    }

    fn read_checked(buf: &mut Reader) -> (r: Result<EncryptionResponse, ReadError>) {
        match <(Vec<u8>, Vec<u8>) as PacketData>::read_checked(buf) {
            Ok((shared_secret, verify_token)) => Ok(EncryptionResponse { shared_secret, verify_token }),
            Err(e) => Err(e),
        }
    }

    fn write(&self, buf: &mut Vec<u8>) {
        self.shared_secret.write(buf);
        self.verify_token.write(buf);
        assert(buf@ =~= old(buf)@ + Self::spec_write(self.deep_view()));
    }
}

impl Packet for EncryptionResponse {
    const ID: i32 = 0x01;

    open spec fn spec_id() -> i32 {
        0x01
    }

    proof fn lemma_id() {
    }
}

/// The server asks the client to turn on encryption.
pub struct EncryptionRequest {
    pub server_id: String,
    pub public: Vec<u8>,
    pub verify_token: Vec<u8>,
}

impl DeepView for EncryptionRequest {
    type V = (Seq<char>, (Seq<u8>, Seq<u8>));

    open spec fn deep_view(&self) -> (Seq<char>, (Seq<u8>, Seq<u8>)) {
        (self.server_id.deep_view(), (self.public.deep_view(), self.verify_token.deep_view()))
    }
}

/// The wire layout of the fields, in declaration order.
impl PacketData for EncryptionRequest {
    open spec fn spec_read(bytes: Seq<u8>) -> ReadOutcome<(Seq<char>, (Seq<u8>, Seq<u8>))> {
        <(String, (Vec<u8>, Vec<u8>)) as PacketData>::spec_read(bytes)
    }

    open spec fn spec_writable(v: (Seq<char>, (Seq<u8>, Seq<u8>))) -> bool {
        <(String, (Vec<u8>, Vec<u8>)) as PacketData>::spec_writable(v)
    }

    open spec fn spec_write(v: (Seq<char>, (Seq<u8>, Seq<u8>))) -> Seq<u8> {
        <(String, (Vec<u8>, Vec<u8>)) as PacketData>::spec_write(v)
    }

    proof fn lemma_roundtrip(v: (Seq<char>, (Seq<u8>, Seq<u8>)), rest: Seq<u8>) {
        <(String, (Vec<u8>, Vec<u8>)) as PacketData>::lemma_roundtrip(v, rest);
    }

    fn read_checked(buf: &mut Reader) -> (r: Result<EncryptionRequest, ReadError>) {
        match <(String, (Vec<u8>, Vec<u8>)) as PacketData>::read_checked(buf) {
            Ok((server_id, (public, verify_token))) => Ok(EncryptionRequest { server_id, public, verify_token }),
            Err(e) => Err(e),
        }
    }

    fn write(&self, buf: &mut Vec<u8>) {
        self.server_id.write(buf);
        self.public.write(buf);
        self.verify_token.write(buf);
        assert(buf@ =~= old(buf)@ + Self::spec_write(self.deep_view()));
    }
}

impl Packet for EncryptionRequest {
    const ID: i32 = 0x01;

    open spec fn spec_id() -> i32 {
        0x01
    }

    proof fn lemma_id() {
    }
}

} // verus!

verus! {

/// A login start is written as its name in that field's own
/// wire layout.
pub proof fn law_login_start_layout(p: LoginStart)
    ensures
        <LoginStart as PacketData>::spec_write(p.deep_view()) == <String as PacketData>::spec_write(p.name.deep_view()),
{
}

/// A login start is read as its name: where
/// the fields read so from the front of `bytes`, the packet read is the
/// packet of those fields.
pub proof fn law_login_start_read(p: LoginStart, bytes: Seq<u8>, n1: nat)
    requires
        n1 <= bytes.len(),
        <String as PacketData>::spec_read(bytes) == ReadOutcome::Parsed(p.name.deep_view(), n1),
    ensures
        <LoginStart as PacketData>::spec_read(bytes) == ReadOutcome::Parsed(p.deep_view(), n1),
{
}

/// A disconnect is written as its reason in that field's own
/// wire layout.
pub proof fn law_disconnect_layout(p: Disconnect)
    ensures
        <Disconnect as PacketData>::spec_write(p.deep_view()) == <String as PacketData>::spec_write(p.reason.deep_view()),
{
}

/// A disconnect is read as its reason: where
/// the fields read so from the front of `bytes`, the packet read is the
/// packet of those fields.
pub proof fn law_disconnect_read(p: Disconnect, bytes: Seq<u8>, n1: nat)
    requires
        n1 <= bytes.len(),
        <String as PacketData>::spec_read(bytes) == ReadOutcome::Parsed(p.reason.deep_view(), n1),
    ensures
        <Disconnect as PacketData>::spec_read(bytes) == ReadOutcome::Parsed(p.deep_view(), n1),
{
}

/// A compression threshold is written as its threshold in that field's own
/// wire layout.
pub proof fn law_set_compression_layout(p: SetCompression)
    ensures
        <SetCompression as PacketData>::spec_write(p.deep_view()) == <VarInt as PacketData>::spec_write(p.threshold.deep_view()),
{
}

/// A compression threshold is read as its threshold: where
/// the fields read so from the front of `bytes`, the packet read is the
/// packet of those fields.
pub proof fn law_set_compression_read(p: SetCompression, bytes: Seq<u8>, n1: nat)
    requires
        n1 <= bytes.len(),
        <VarInt as PacketData>::spec_read(bytes) == ReadOutcome::Parsed(p.threshold.deep_view(), n1),
    ensures
        <SetCompression as PacketData>::spec_read(bytes) == ReadOutcome::Parsed(p.deep_view(), n1),
{
}

/// A login success is written as its uuid, then username in that field's own
/// wire layout, in declaration order.
pub proof fn law_login_success_layout(p: LoginSuccess)
    ensures
        <LoginSuccess as PacketData>::spec_write(p.deep_view()) == <String as PacketData>::spec_write(p.uuid.deep_view()) + <String as PacketData>::spec_write(p.username.deep_view()),
{
    assert(<LoginSuccess as PacketData>::spec_write(p.deep_view()) =~= <String as PacketData>::spec_write(p.uuid.deep_view()) + <String as PacketData>::spec_write(p.username.deep_view()));
}

/// A login success is read as its uuid, then username,
/// each from where the one before ended: where
/// the fields read so from the front of `bytes`, the packet read is the
/// packet of those fields.
pub proof fn law_login_success_read(p: LoginSuccess, bytes: Seq<u8>, n1: nat, n2: nat)
    requires
        n1 + n2 <= bytes.len(),
        <String as PacketData>::spec_read(bytes) == ReadOutcome::Parsed(p.uuid.deep_view(), n1),
        <String as PacketData>::spec_read(bytes.skip(n1 as int)) == ReadOutcome::Parsed(p.username.deep_view(), n2),
    ensures
        <LoginSuccess as PacketData>::spec_read(bytes) == ReadOutcome::Parsed(p.deep_view(), n1 + n2),
{
    lemma_pair_read::<String, String>(bytes, p.uuid.deep_view(), n1, p.username.deep_view(), n2);
}

/// An encryption response is written as its shared secret, then verify token in that field's own
/// wire layout, in declaration order.
pub proof fn law_encryption_response_layout(p: EncryptionResponse)
    ensures
        <EncryptionResponse as PacketData>::spec_write(p.deep_view()) == <Vec<u8> as PacketData>::spec_write(p.shared_secret.deep_view()) + <Vec<u8> as PacketData>::spec_write(p.verify_token.deep_view()),
{
    assert(<EncryptionResponse as PacketData>::spec_write(p.deep_view()) =~= <Vec<u8> as PacketData>::spec_write(p.shared_secret.deep_view()) + <Vec<u8> as PacketData>::spec_write(p.verify_token.deep_view()));
}

/// An encryption response is read as its shared secret, then verify token,
/// each from where the one before ended: where
/// the fields read so from the front of `bytes`, the packet read is the
/// packet of those fields.
pub proof fn law_encryption_response_read(p: EncryptionResponse, bytes: Seq<u8>, n1: nat, n2: nat)
    requires
        n1 + n2 <= bytes.len(),
        <Vec<u8> as PacketData>::spec_read(bytes) == ReadOutcome::Parsed(p.shared_secret.deep_view(), n1),
        <Vec<u8> as PacketData>::spec_read(bytes.skip(n1 as int)) == ReadOutcome::Parsed(p.verify_token.deep_view(), n2),
    ensures
        <EncryptionResponse as PacketData>::spec_read(bytes) == ReadOutcome::Parsed(p.deep_view(), n1 + n2),
{
    lemma_pair_read::<Vec<u8>, Vec<u8>>(bytes, p.shared_secret.deep_view(), n1, p.verify_token.deep_view(), n2);
}

/// An encryption request is written as its server id, then public key, then verify token in that field's own
/// wire layout, in declaration order.
pub proof fn law_encryption_request_layout(p: EncryptionRequest)
    ensures
        <EncryptionRequest as PacketData>::spec_write(p.deep_view()) == <String as PacketData>::spec_write(p.server_id.deep_view()) + <Vec<u8> as PacketData>::spec_write(p.public.deep_view()) + <Vec<u8> as PacketData>::spec_write(p.verify_token.deep_view()),
{
    assert(<EncryptionRequest as PacketData>::spec_write(p.deep_view()) =~= <String as PacketData>::spec_write(p.server_id.deep_view()) + <Vec<u8> as PacketData>::spec_write(p.public.deep_view()) + <Vec<u8> as PacketData>::spec_write(p.verify_token.deep_view()));
}

/// An encryption request is read as its server id, then public key, then verify token,
/// each from where the one before ended: where
/// the fields read so from the front of `bytes`, the packet read is the
/// packet of those fields.
pub proof fn law_encryption_request_read(p: EncryptionRequest, bytes: Seq<u8>, n1: nat, n2: nat, n3: nat)
    requires
        n1 + n2 + n3 <= bytes.len(),
        <String as PacketData>::spec_read(bytes) == ReadOutcome::Parsed(p.server_id.deep_view(), n1),
        <Vec<u8> as PacketData>::spec_read(bytes.skip(n1 as int)) == ReadOutcome::Parsed(p.public.deep_view(), n2),
        <Vec<u8> as PacketData>::spec_read(bytes.skip((n1 + n2) as int)) == ReadOutcome::Parsed(p.verify_token.deep_view(), n3),
    ensures
        <EncryptionRequest as PacketData>::spec_read(bytes) == ReadOutcome::Parsed(p.deep_view(), n1 + n2 + n3),
{
    assert(bytes.skip(n1 as int).skip(n2 as int) =~= bytes.skip((n1 + n2) as int));
    lemma_pair_read::<Vec<u8>, Vec<u8>>(bytes.skip(n1 as int), p.public.deep_view(), n2, p.verify_token.deep_view(), n3);
    lemma_pair_read::<String, (Vec<u8>, Vec<u8>)>(bytes, p.server_id.deep_view(), n1, (p.public.deep_view(), p.verify_token.deep_view()), n2 + n3);
}

} // verus!
