//! Handshakes with a display: what is said to every kind of server, and how each ends.
use crate::result::FailureReason;
use crate::vnc::{Stage, VncScreen};
use crate::{apple_dh, number, text, vnc};
use vstd::prelude::*;

verus! {

/// A conversation goes on with what the stage wants, and then with the rest.
proof fn lemma_goes_on(
    stage: Stage,
    username: Seq<char>,
    password: Seq<char>,
    part: Seq<u8>,
    rest: Seq<u8>,
    secret: Seq<u8>,
    steps: nat,
)
    requires
        !(stage is Ready || stage is Failed || stage is Secret),
        part.len() == vnc::bytes_wanted(stage),
    ensures
        ({
            let (sent, next) = vnc::handshake_step(stage, username, password, part);
            let (more, end) = vnc::converse(next, username, password, rest, secret, steps);
            vnc::converse(stage, username, password, part + rest, secret, steps + 1) == (
                sent + more,
                end,
            )
        }),
{
    let server = part + rest;
    let wanted = vnc::bytes_wanted(stage) as int;
    assert(server.take(wanted) =~= part);
    assert(server.skip(wanted) =~= rest);
}

/// A conversation that is over stays so.
proof fn lemma_over(
    stage: Stage,
    username: Seq<char>,
    password: Seq<char>,
    rest: Seq<u8>,
    secret: Seq<u8>,
    steps: nat,
)
    requires
        stage is Ready || stage is Failed,
    ensures
        vnc::converse(stage, username, password, rest, secret, steps) == (
            Seq::<u8>::empty(),
            stage,
        ),
{
}

/// The name of a version of the protocol from before security types were lists: RFB 003.003.
pub open spec fn old_version(version: Seq<u8>) -> bool {
    &&& version.len() == 12
    &&& version.take(11) == seq![82u8, 70, 66, 32, 48, 48, 51, 46, 48, 48, 51]
}

proof fn lemma_old_version(version: Seq<u8>)
    requires
        version.len() == 12,
    ensures
        vnc::speaks_legacy(version) == old_version(version),
{
    reveal_strlit("RFB 003.003");
    let shown = "RFB 003.003"@;
    assert(vstd::utf8::is_ascii_chars(shown));
    vstd::utf8::is_ascii_chars_encode_utf8(shown);
    let name = vstd::utf8::encode_utf8(shown);
    assert(name =~= seq![82u8, 70, 66, 32, 48, 48, 51, 46, 48, 48, 51]);
    assert(version.subrange(0, 11) =~= version.take(11));
}

/// The greeting and the name of a server lead to its screen.
proof fn lemma_greeting(
    username: Seq<char>,
    password: Seq<char>,
    greeting: Seq<u8>,
    name: Seq<u8>,
    secret: Seq<u8>,
)
    requires
        greeting.len() == 24,
        vnc::format_refusal(greeting.subrange(4, 20)) is None,
        name.len() == vnc::be32(greeting, 20),
    ensures
        vnc::converse(Stage::ServerInit, username, password, greeting + name, secret, 2) == (
            seq![2u8, 0, 0, 1, 0, 0, 0, 0],
            Stage::Ready { screen: vnc::greeted_screen(greeting) },
        ),
{
    let none = Seq::<u8>::empty();
    let screen = vnc::greeted_screen(greeting);
    let named = Stage::ServerName { screen, length: vnc::be32(greeting, 20) };
    let ready = Stage::Ready { screen };
    lemma_over(ready, username, password, none, secret, 0);
    assert(name + none =~= name);
    lemma_goes_on(named, username, password, name, none, secret, 0);
    let asked = seq![2u8, 0, 0, 1, 0, 0, 0, 0];
    assert(asked + none =~= asked);
    assert(vnc::converse(named, username, password, name, secret, 1) == (asked, ready));
    lemma_goes_on(Stage::ServerInit, username, password, greeting, name, secret, 1);
    assert(none + asked =~= asked);
}

/// A server of an old version that asks for no security is answered with its version, told that the
/// screen is shared, and asked for plain pixels.
pub proof fn old_servers_let_the_client_in(
    username: Seq<char>,
    password: Seq<char>,
    version: Seq<u8>,
    greeting: Seq<u8>,
    name: Seq<u8>,
    secret: Seq<u8>,
)
    requires
        old_version(version),
        greeting.len() == 24,
        vnc::format_refusal(greeting.subrange(4, 20)) is None,
        name.len() == vnc::be32(greeting, 20),
    ensures
        vnc::converse(
            Stage::Version,
            username,
            password,
            version + (seq![0u8, 0, 0, 1] + (greeting + name)),
            secret,
            4,
        ) == (
            version + seq![1u8, 2, 0, 0, 1, 0, 0, 0, 0],
            Stage::Ready { screen: vnc::greeted_screen(greeting) },
        ),
{
    lemma_old_version(version);
    lemma_greeting(username, password, greeting, name, secret);
    lemma_without_security(username, password, greeting + name, secret);
    lemma_goes_on(
        Stage::Version,
        username,
        password,
        version,
        seq![0u8, 0, 0, 1] + (greeting + name),
        secret,
        3,
    );
    assert(version + (seq![1u8] + seq![2u8, 0, 0, 1, 0, 0, 0, 0]) =~= version + seq![
        1u8,
        2,
        0,
        0,
        1,
        0,
        0,
        0,
        0,
    ]);
}

proof fn lemma_without_security(
    username: Seq<char>,
    password: Seq<char>,
    rest: Seq<u8>,
    secret: Seq<u8>,
)
    ensures
        ({
            let (more, end) = vnc::converse(
                Stage::ServerInit,
                username,
                password,
                rest,
                secret,
                2,
            );
            vnc::converse(
                Stage::LegacySecurity,
                username,
                password,
                seq![0u8, 0, 0, 1] + rest,
                secret,
                3,
            ) == (seq![1u8] + more, end)
        }),
{
    let no_security = seq![0u8, 0, 0, 1];
    assert(vnc::be32(no_security, 0) == 1);
    lemma_goes_on(Stage::LegacySecurity, username, password, no_security, rest, secret, 2);
}

/// How a server begins to refuse: it has no security type for the client, or its verdict is that the
/// client failed, or failed too often.
pub open spec fn refuses(stage: Stage, bytes: Seq<u8>) -> bool {
    match stage {
        Stage::LegacySecurity => bytes == seq![0u8, 0, 0, 0],
        Stage::SecurityCount => bytes == seq![0u8],
        Stage::SecurityResult => bytes == seq![0u8, 0, 0, 1] || bytes == seq![0u8, 0, 0, 2],
        _ => false,
    }
}

/// A server that refuses is heard out, and what it says is told. Nothing is sent to it.
pub proof fn refusals_are_heard_out(
    stage: Stage,
    username: Seq<char>,
    password: Seq<char>,
    refusal: Seq<u8>,
    length: Seq<u8>,
    words: Seq<u8>,
    rest: Seq<u8>,
    secret: Seq<u8>,
)
    requires
        refuses(stage, refusal),
        length.len() == 4,
        words.len() == vnc::be32(length, 0),
    ensures
        vnc::converse(
            stage,
            username,
            password,
            refusal + (length + (words + rest)),
            secret,
            3,
        ) == (
            Seq::<u8>::empty(),
            Stage::Failed {
                reason: FailureReason::DisplayStartFailed,
                message: "VNC handshake failed: "@ + text::utf8_lossy(words),
            },
        ),
{
    assert(vnc::be32(seq![0u8, 0, 0, 0], 0) == 0);
    assert(vnc::be32(seq![0u8, 0, 0, 1], 0) == 1);
    assert(vnc::be32(seq![0u8, 0, 0, 2], 0) == 2);
    let told = Stage::FailureText { length: vnc::be32(length, 0) };
    let none = Seq::<u8>::empty();
    lemma_goes_on(stage, username, password, refusal, length + (words + rest), secret, 2);
    lemma_goes_on(
        Stage::FailureLength,
        username,
        password,
        length,
        words + rest,
        secret,
        1,
    );
    lemma_goes_on(told, username, password, words, rest, secret, 0);
    assert(none + (none + (none + none)) =~= none);
}

/// A server is refused, in silence, where it offers nothing that the client can do: neither no
/// security nor the key exchange, an unknown type or an unknown verdict.
pub proof fn strange_servers_are_refused(
    username: Seq<char>,
    password: Seq<char>,
    bytes: Seq<u8>,
    count: nat,
)
    ensures
        bytes.len() == 4 && vnc::be32(bytes, 0) > 1 ==> vnc::handshake_step(
            Stage::LegacySecurity,
            username,
            password,
            bytes,
        ) == (
            Seq::<u8>::empty(),
            Stage::Failed {
                reason: FailureReason::DisplayStartFailed,
                message: "unsupported VNC security type "@ + number::decimal_seq(
                    vnc::be32(bytes, 0),
                ),
            },
        ),
        bytes.len() == 4 && vnc::be32(bytes, 0) > 2 ==> vnc::handshake_step(
            Stage::SecurityResult,
            username,
            password,
            bytes,
        ) == (
            Seq::<u8>::empty(),
            Stage::Failed {
                reason: FailureReason::DisplayStartFailed,
                message: "unknown VNC security result "@ + number::decimal_seq(
                    vnc::be32(bytes, 0),
                ),
            },
        ),
        !bytes.contains(1u8) && !bytes.contains(30u8) ==> vnc::handshake_step(
            Stage::SecurityTypes { count },
            username,
            password,
            bytes,
        ) == (
            Seq::<u8>::empty(),
            Stage::Failed {
                reason: FailureReason::DisplayStartFailed,
                message: "VNC server did not offer a supported security type: "@
                    + vnc::security_type_names(bytes),
            },
        ),
        bytes.contains(1u8) ==> vnc::handshake_step(
            Stage::SecurityTypes { count },
            username,
            password,
            bytes,
        ) == (seq![1u8], Stage::SecurityResult),
        !bytes.contains(1u8) && bytes.contains(30u8) ==> vnc::handshake_step(
            Stage::SecurityTypes { count },
            username,
            password,
            bytes,
        ) == (seq![30u8], Stage::KeyHeader),
{
}

/// Security types are told by their names, in the order of the offer, with commas between them.
pub proof fn security_types_have_names(types: Seq<u8>, last: u8)
    ensures
        vnc::security_type_name(1) == "none"@,
        vnc::security_type_name(2) == "vnc-auth"@,
        vnc::security_type_name(5) == "rsa-aes128"@,
        vnc::security_type_name(19) == "vencrypt"@,
        vnc::security_type_name(30) == "apple-dh"@,
        vnc::security_type_name(129) == "rsa-aes256"@,
        last != 1 && last != 2 && last != 5 && last != 19 && last != 30 && last != 129
            ==> vnc::security_type_name(last) == "unknown-"@ + number::decimal_seq(last as nat),
        vnc::security_type_names(seq![last]) == vnc::security_type_name(last),
        types.len() > 0 ==> vnc::security_type_names(types.push(last)) == vnc::security_type_names(
            types,
        ) + ", "@ + vnc::security_type_name(last),
{
    let name = |s: Seq<u8>| Seq::new(s.len(), |i: int| vnc::security_type_name(s[i]));
    let one = name(seq![last]);
    assert(one =~= seq![vnc::security_type_name(last)]);
    assert(text::join_seq(one, ", "@) =~= vnc::security_type_name(last));
    if types.len() > 0 {
        let all = name(types.push(last));
        assert(all.drop_last() =~= name(types));
        assert(all.last() == vnc::security_type_name(last));
    }
}

/// A key exchange takes a generator and the length of the modulus in two bytes each, and goes on
/// with the modulus, the server's key and 512 random bytes. Neither number may be zero, and the
/// modulus may have no more than 4096 bytes.
pub proof fn key_exchanges_have_limits(
    username: Seq<char>,
    password: Seq<char>,
    header: Seq<u8>,
    modulus: Seq<u8>,
    server_key: Seq<u8>,
    secret: Seq<u8>,
)
    requires
        header.len() == 4,
    ensures
        ({
            let generator = (256 * header[0] + header[1]) as nat;
            let length = (256 * header[2] + header[3]) as nat;
            &&& generator == 0 || length == 0 || length > 4096 ==> vnc::handshake_step(
                Stage::KeyHeader,
                username,
                password,
                header,
            ) == (
                Seq::<u8>::empty(),
                Stage::Failed {
                    reason: FailureReason::DisplayStartFailed,
                    message: "unsupported VNC Apple-DH parameters: generator="@
                        + number::decimal_seq(generator) + ", key_len="@ + number::decimal_seq(
                        length,
                    ),
                },
            )
            &&& generator > 0 && 0 < length <= 4096 ==> vnc::handshake_step(
                Stage::KeyHeader,
                username,
                password,
                header,
            ) == (Seq::<u8>::empty(), Stage::Modulus { generator, length })
            &&& vnc::bytes_wanted(Stage::Modulus { generator, length }) == length
            &&& vnc::handshake_step(
                Stage::Modulus { generator, length },
                username,
                password,
                modulus,
            ) == (Seq::<u8>::empty(), Stage::ServerKey { generator, modulus })
            &&& vnc::bytes_wanted(Stage::ServerKey { generator, modulus }) == modulus.len()
            &&& vnc::handshake_step(
                Stage::ServerKey { generator, modulus },
                username,
                password,
                server_key,
            ) == (Seq::<u8>::empty(), Stage::Secret { generator, modulus, server_key })
            &&& vnc::bytes_wanted(Stage::Secret { generator, modulus, server_key }) == 512
            &&& apple_dh::be_value(modulus) == 0 ==> vnc::handshake_step(
                Stage::Secret { generator, modulus, server_key },
                username,
                password,
                secret,
            ) == (
                Seq::<u8>::empty(),
                Stage::Failed {
                    reason: FailureReason::DisplayStartFailed,
                    message: "VNC Apple-DH server sent an empty modulus"@,
                },
            )
            &&& apple_dh::be_value(modulus) != 0 ==> vnc::handshake_step(
                Stage::Secret { generator, modulus, server_key },
                username,
                password,
                secret,
            ) == (
                apple_dh::response_bytes(
                    generator,
                    modulus,
                    server_key,
                    username,
                    password,
                    secret,
                ),
                Stage::SecurityResult,
            )
        }),
{
}

/// A screen whose pixels cannot be read ends the handshake, as a screenshot that failed.
pub proof fn unreadable_screens_are_refused(
    username: Seq<char>,
    password: Seq<char>,
    greeting: Seq<u8>,
    error: Seq<char>,
    screen: VncScreen,
)
    requires
        greeting.len() == 24,
    ensures
        vnc::format_refusal(greeting.subrange(4, 20)) matches Some(message)
            ==> vnc::handshake_step(Stage::ServerInit, username, password, greeting) == (
            Seq::<u8>::empty(),
            Stage::Failed { reason: FailureReason::ScreenshotFailed, message },
        ),
        vnc::bytes_wanted(Stage::Version) == 12,
        vnc::bytes_wanted(Stage::LegacySecurity) == 4,
        vnc::bytes_wanted(Stage::SecurityCount) == 1,
        vnc::bytes_wanted(Stage::SecurityResult) == 4,
        vnc::bytes_wanted(Stage::KeyHeader) == 4,
        vnc::bytes_wanted(Stage::FailureLength) == 4,
        vnc::bytes_wanted(Stage::ServerInit) == 24,
        vnc::bytes_wanted(Stage::Ready { screen }) == 0,
{
}

/// A server that stops talking fails the handshake: in the middle of its refusal as a refusal, else
/// as a screenshot that failed. Where there are no random bytes, that is an internal error.
pub proof fn silence_fails_the_handshake(stage: Stage, error: Seq<char>)
    ensures
        stage is FailureLength || stage is FailureText ==> vnc::unread_failure(stage, error) == (
            FailureReason::DisplayStartFailed,
            "VNC handshake failed"@,
        ),
        stage is Secret ==> vnc::unread_failure(stage, error) == (
            FailureReason::InternalError,
            error,
        ),
        !(stage is FailureLength || stage is FailureText || stage is Secret)
            ==> vnc::unread_failure(stage, error) == (
            FailureReason::ScreenshotFailed,
            "failed to read from Weston VNC server: "@ + error,
        ),
{
}

/// Numbers on the wire have their most significant byte first.
pub proof fn numbers_on_the_wire(value: u16, bytes: Seq<u8>)
    ensures
        vnc::wire16(value).len() == 2,
        256 * vnc::wire16(value)[0] + vnc::wire16(value)[1] == value,
        vnc::be16(vnc::wire16(value), 0) == value,
        bytes.len() == 4 ==> vnc::be32(bytes, 0) == 0x100_0000 * bytes[0] + 0x1_0000 * bytes[1]
            + 0x100 * bytes[2] + bytes[3],
        bytes.len() == 4 && bytes[0] < 128 ==> vnc::be_signed32(bytes, 0) == vnc::be32(bytes, 0),
        bytes.len() == 4 && bytes[0] >= 128 ==> vnc::be_signed32(bytes, 0) == vnc::be32(bytes, 0)
            - 0x1_0000_0000,
{
}

/// The pointer goes where it should, or to the nearest edge of the screen, with the buttons that are
/// down.
pub proof fn the_pointer_goes_where_it_should(value: int, length: u16, buttons: u8, x: u16, y: u16)
    ensures
        length > 0 && value < 0 ==> vnc::clamped(value, length as nat) == 0,
        length > 0 && value >= length ==> vnc::clamped(value, length as nat) == length - 1,
        0 <= value < length ==> vnc::clamped(value, length as nat) == value,
        length == 0 ==> vnc::clamped(value, length as nat) == 0,
        vnc::pointer_message(buttons, x, y) == seq![
            5u8,
            buttons,
            (x / 256) as u8,
            (x % 256) as u8,
            (y / 256) as u8,
            (y % 256) as u8,
        ],
        vnc::park_position() == (1int, 1int),
{
    assert(vnc::pointer_message(buttons, x, y) =~= seq![
        5u8,
        buttons,
        (x / 256) as u8,
        (x % 256) as u8,
        (y / 256) as u8,
        (y % 256) as u8,
    ]);
}

/// A picture begins with its kind, its width, its height and the largest value of a color, and then
/// has the colors of its pixels.
pub proof fn pictures_have_a_header(screen: VncScreen, rgb: Seq<u8>)
    ensures
        ({
            let header = vstd::utf8::encode_utf8(
                "P6\n"@ + number::decimal_seq(screen.width as nat) + " "@ + number::decimal_seq(
                    screen.height as nat,
                ) + "\n255\n"@,
            );
            vnc::pixmap(screen, rgb) == header + rgb
        }),
{
}

// ---------------------------------------------------------------------------
// The key exchange

/// A number is worth what stands in front times 256 for each byte behind, and what stands behind.
pub proof fn bytes_make_numbers(front: Seq<u8>, behind: Seq<u8>)
    ensures
        apple_dh::be_value(front + behind) == apple_dh::be_value(front)
            * vstd::arithmetic::power::pow(256, behind.len()) + apple_dh::be_value(behind),
        front.len() == 1 ==> apple_dh::be_value(front) == front[0],
        front.len() == 0 ==> apple_dh::be_value(front) == 0,
    decreases behind.len(),
{
    reveal_with_fuel(apple_dh::be_value, 2);
    let value = apple_dh::be_value(front) as int;
    if behind.len() == 0 {
        assert(front + behind =~= front);
        vstd::arithmetic::power::lemma_pow0(256);
        assert(value * 1 == value);
    } else {
        let less = behind.drop_last();
        bytes_make_numbers(front, less);
        assert((front + behind).drop_last() =~= front + less);
        assert((front + behind).last() == behind.last());
        let power = vstd::arithmetic::power::pow(256, less.len());
        reveal(vstd::arithmetic::power::pow);
        assert(vstd::arithmetic::power::pow(256, behind.len()) == 256 * power);
        assert((value * power + apple_dh::be_value(less)) * 256 == value * (256 * power)
            + apple_dh::be_value(less) * 256) by (nonlinear_arith);
    }
}

/// A number is written in as many bytes as are asked for, the last of which is its remainder by 256.
pub proof fn numbers_make_bytes(value: nat, last: u8, length: nat)
    ensures
        apple_dh::be_bytes(value, 0) == Seq::<u8>::empty(),
        apple_dh::be_bytes(256 * value + last as nat, length + 1) == apple_dh::be_bytes(
            value,
            length,
        ).push(last),
{
    let all = 256 * value + last as nat;
    assert(all / 256 == value);
    assert(all % 256 == last);
}

/// A field of credentials has 64 bytes: those of the text, as far as they fit, and then zeros.
pub proof fn credentials_fill_their_fields(shown: Seq<char>, i: int)
    requires
        0 <= i < 64,
    ensures
        apple_dh::credential_field(shown).len() == 64,
        i < vstd::utf8::encode_utf8(shown).len() ==> apple_dh::credential_field(shown)[i]
            == vstd::utf8::encode_utf8(shown)[i],
        i >= vstd::utf8::encode_utf8(shown).len() ==> apple_dh::credential_field(shown)[i] == 0,
{
}

/// Each block of 16 bytes is encrypted by itself, under the same key.
pub proof fn blocks_are_encrypted_one_by_one(key: Seq<u8>, data: Seq<u8>, k: int)
    requires
        data.len() % 16 == 0,
        0 <= k,
        16 * k + 16 <= data.len(),
        apple_dh::aes128_block(key, data.subrange(16 * k, 16 * k + 16)).len() == 16,
    ensures
        apple_dh::ecb_encrypted(key, data).len() == data.len(),
        apple_dh::ecb_encrypted(key, data).subrange(16 * k, 16 * k + 16) == apple_dh::aes128_block(
            key,
            data.subrange(16 * k, 16 * k + 16),
        ),
{
    let out = apple_dh::ecb_encrypted(key, data);
    let block = apple_dh::aes128_block(key, data.subrange(16 * k, 16 * k + 16));
    assert forall|j: int| 0 <= j < 16 implies out.subrange(16 * k, 16 * k + 16)[j]
        == block[j] by {
        let i = 16 * k + j;
        assert(i / 16 * 16 == 16 * k);
        assert(i % 16 == j);
        assert(out[i] == apple_dh::aes128_block(key, apple_dh::block_around(data, i))[i % 16]);
    }
    assert(out.subrange(16 * k, 16 * k + 16) =~= block);
}

/// The answer to a key exchange is the user's name and password, each in its field, encrypted under
/// the digest of the shared key, and then the client's own key.
pub proof fn responses_hold_the_credentials(
    generator: nat,
    modulus: Seq<u8>,
    server_key: Seq<u8>,
    username: Seq<char>,
    password: Seq<char>,
    secret: Seq<u8>,
)
    requires
        apple_dh::be_value(modulus) != 0,
    ensures
        ({
            let m = apple_dh::be_value(modulus) as int;
            let exponent = apple_dh::be_value(secret);
            let shared = vstd::arithmetic::power::pow(
                apple_dh::be_value(server_key) as int,
                exponent,
            ) % m;
            let public = vstd::arithmetic::power::pow(generator as int, exponent) % m;
            let all = apple_dh::response_bytes(
                generator,
                modulus,
                server_key,
                username,
                password,
                secret,
            );
            &&& all.take(128) == apple_dh::ecb_encrypted(
                apple_dh::md5_digest(apple_dh::be_bytes(shared as nat, modulus.len())),
                apple_dh::credential_field(username) + apple_dh::credential_field(password),
            )
            &&& all.skip(128) == apple_dh::be_bytes(public as nat, modulus.len())
        }),
{
    let m = apple_dh::be_value(modulus) as int;
    let all = apple_dh::response_bytes(
        generator,
        modulus,
        server_key,
        username,
        password,
        secret,
    );
    let exponent = apple_dh::be_value(secret);
    let shared = vstd::arithmetic::power::pow(apple_dh::be_value(server_key) as int, exponent) % m;
    let public = vstd::arithmetic::power::pow(generator as int, exponent) % m;
    let fields = apple_dh::credential_field(username) + apple_dh::credential_field(password);
    assert(fields.len() == 128);
    let first = apple_dh::ecb_encrypted(
        apple_dh::md5_digest(apple_dh::be_bytes(shared as nat, modulus.len())),
        fields,
    );
    assert(all.take(128) =~= first);
    assert(all.skip(128) =~= apple_dh::be_bytes(public as nat, modulus.len()));
}

} // verus!
