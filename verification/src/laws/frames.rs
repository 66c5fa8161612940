//! Pictures over the remote framebuffer protocol: from the bytes of a server to colors.
use crate::vnc::{Rectangle, UpdateStage, VncPixelFormat, VncScreen};
use crate::vnc;
use vstd::prelude::*;

verus! {

/// A rectangle of plain pixels that a server sends.
pub struct Patch {
    pub x: int,
    pub y: int,
    pub width: int,
    pub height: int,
    pub pixels: Seq<u8>,
}

/// How many bytes a pixel takes.
pub open spec fn pixel_size(screen: VncScreen) -> int {
    screen.format.bits_per_pixel as int / 8
}

/// A patch lies on the screen and brings all its pixels.
pub open spec fn fits(screen: VncScreen, patch: Patch) -> bool {
    &&& 0 <= patch.x && 0 <= patch.width && patch.x + patch.width <= screen.width
    &&& 0 <= patch.y && 0 <= patch.height && patch.y + patch.height <= screen.height
    &&& patch.pixels.len() == patch.height * patch.width * pixel_size(screen)
}

/// A number below 65536 on the wire.
pub open spec fn two_bytes(value: int) -> Seq<u8> {
    seq![(value / 256) as u8, (value % 256) as u8]
}

/// A patch on the wire: its place, its size, the encoding of plain pixels, and the pixels.
pub open spec fn patch_bytes(patch: Patch) -> Seq<u8> {
    two_bytes(patch.x) + two_bytes(patch.y) + two_bytes(patch.width) + two_bytes(patch.height)
        + seq![0u8, 0, 0, 0] + patch.pixels
}

/// Patches on the wire, one after the other.
pub open spec fn all_bytes(patches: Seq<Patch>) -> Seq<u8>
    decreases patches.len(),
{
    if patches.len() == 0 {
        Seq::empty()
    } else {
        patch_bytes(patches[0]) + all_bytes(patches.skip(1))
    }
}

/// An update of the screen on the wire: its kind, a byte of padding, how many patches there are,
/// and the patches.
pub open spec fn update_bytes(patches: Seq<Patch>) -> Seq<u8> {
    seq![0u8, 0] + two_bytes(patches.len() as int) + all_bytes(patches)
}

/// Whether a patch covers a place on the screen.
pub open spec fn covers(patch: Patch, column: int, line: int) -> bool {
    patch.x <= column < patch.x + patch.width && patch.y <= line < patch.y + patch.height
}

/// The color that patches leave at a place: that of the last one that covers it, and black where
/// none does.
pub open spec fn color_at(screen: VncScreen, patches: Seq<Patch>, column: int, line: int) -> (
    u8,
    u8,
    u8,
)
    decreases patches.len(),
{
    if patches.len() == 0 {
        (0, 0, 0)
    } else if covers(patches.last(), column, line) {
        let patch = patches.last();
        let at = ((line - patch.y) * patch.width + (column - patch.x)) * pixel_size(screen);
        vnc::pixel_color(screen.format, patch.pixels.subrange(at, at + pixel_size(screen)))
    } else {
        color_at(screen, patches.drop_last(), column, line)
    }
}

/// Whether a frame has exactly these colors, line by line, and each as red, green and blue.
pub open spec fn shows(screen: VncScreen, rgb: Seq<u8>, patches: Seq<Patch>) -> bool {
    &&& rgb.len() == screen.width * screen.height * 3
    &&& forall|column: int, line: int|
        0 <= column < screen.width && 0 <= line < screen.height ==> ({
            let color = #[trigger] color_at(screen, patches, column, line);
            let at = (line * screen.width + column) * 3;
            rgb[at] == color.0 && rgb[at + 1] == color.1 && rgb[at + 2] == color.2
        })
}

/// What a reader makes of the bytes of a server in so many steps: how far it has come, the frame,
/// and the bytes that it did not take.
pub open spec fn reading(
    screen: VncScreen,
    stage: UpdateStage,
    rgb: Seq<u8>,
    server: Seq<u8>,
    steps: nat,
) -> (UpdateStage, Seq<u8>, Seq<u8>)
    decreases steps,
{
    let wanted = vnc::update_wanted(screen, stage) as int;
    if steps == 0 || stage is Done || stage is Failed || server.len() < wanted {
        (stage, rgb, server)
    } else {
        let (next, frame) = vnc::update_step(screen, stage, rgb, server.take(wanted));
        reading(screen, next, frame, server.skip(wanted), (steps - 1) as nat)
    }
}

proof fn lemma_reading(
    screen: VncScreen,
    stage: UpdateStage,
    rgb: Seq<u8>,
    head: Seq<u8>,
    tail: Seq<u8>,
    steps: nat,
)
    requires
        steps > 0,
        !(stage is Done || stage is Failed),
        head.len() == vnc::update_wanted(screen, stage),
    ensures
        ({
            let (next, frame) = vnc::update_step(screen, stage, rgb, head);
            reading(screen, stage, rgb, head + tail, steps) == reading(
                screen,
                next,
                frame,
                tail,
                (steps - 1) as nat,
            )
        }),
{
    assert((head + tail).take(head.len() as int) =~= head);
    assert((head + tail).skip(head.len() as int) =~= tail);
}

spec fn rectangle(patch: Patch) -> Rectangle {
    Rectangle {
        x: patch.x as u16,
        y: patch.y as u16,
        width: patch.width as u16,
        height: patch.height as u16,
    }
}

spec fn drawn(screen: VncScreen, rgb: Seq<u8>, patch: Patch) -> Seq<u8> {
    vnc::with_rows(screen, rgb, rectangle(patch), patch.pixels, 0, patch.height)
}

spec fn all_drawn(screen: VncScreen, rgb: Seq<u8>, patches: Seq<Patch>) -> Seq<u8>
    decreases patches.len(),
{
    if patches.len() == 0 {
        rgb
    } else {
        all_drawn(screen, drawn(screen, rgb, patches[0]), patches.skip(1))
    }
}

spec fn patch_steps(patch: Patch) -> nat {
    (1 + patch.height) as nat
}

spec fn all_steps(patches: Seq<Patch>) -> nat
    decreases patches.len(),
{
    if patches.len() == 0 {
        0
    } else {
        patch_steps(patches[0]) + all_steps(patches.skip(1))
    }
}

proof fn lemma_rows(
    screen: VncScreen,
    rgb: Seq<u8>,
    patch: Patch,
    left: nat,
    rest: Seq<u8>,
    steps: nat,
    row: int,
)
    requires
        fits(screen, patch),
        0 <= row < patch.height,
        left > 0,
    ensures
        reading(
            screen,
            UpdateStage::Row { rectangle: rectangle(patch), row: row as nat, left },
            vnc::with_rows(screen, rgb, rectangle(patch), patch.pixels, 0, row),
            patch.pixels.skip(row * (patch.width * pixel_size(screen))) + rest,
            (patch.height - row) as nat + steps,
        ) == reading(
            screen,
            if left == 1 {
                UpdateStage::Done
            } else {
                UpdateStage::RectangleHeader { left: (left - 1) as nat }
            },
            drawn(screen, rgb, patch),
            rest,
            steps,
        ),
    decreases patch.height - row,
{
    let shape = rectangle(patch);
    let pixels = patch.pixels;
    let size = patch.width * pixel_size(screen);
    let height = patch.height;
    assert(size >= 0 && patch.height * patch.width * pixel_size(screen) == height * size)
        by (nonlinear_arith)
        requires
            size == patch.width * pixel_size(screen),
            patch.width >= 0,
            pixel_size(screen) >= 0,
            height == patch.height,
    ;
    assert(size == vnc::row_bytes(screen, shape));
    assert(0 <= row * size && row * size + size == (row + 1) * size && (row + 1) * size <= height
        * size) by (nonlinear_arith)
        requires
            0 <= row < height,
            size >= 0,
    ;
    let head = vnc::row_of(screen, shape, pixels, row);
    let tail = pixels.skip((row + 1) * size) + rest;
    let stage = UpdateStage::Row { rectangle: shape, row: row as nat, left };
    let frame = vnc::with_rows(screen, rgb, shape, pixels, 0, row);
    assert(pixels.skip(row * size) + rest =~= head + tail);
    lemma_reading(screen, stage, frame, head, tail, (height - row) as nat + steps);
    let next = vnc::with_pixels(
        screen,
        frame,
        head,
        shape.x as int,
        shape.y + row,
        shape.width as int,
    );
    assert(next =~= vnc::with_rows(screen, rgb, shape, pixels, 0, row + 1));
    if row + 1 < height {
        lemma_rows(screen, rgb, patch, left, rest, steps, row + 1);
    } else {
        assert(tail =~= rest);
    }
}

proof fn lemma_patch(
    screen: VncScreen,
    rgb: Seq<u8>,
    patch: Patch,
    left: nat,
    rest: Seq<u8>,
    steps: nat,
)
    requires
        fits(screen, patch),
        left > 0,
    ensures
        reading(
            screen,
            UpdateStage::RectangleHeader { left },
            rgb,
            patch_bytes(patch) + rest,
            patch_steps(patch) + steps,
        ) == reading(
            screen,
            if left == 1 {
                UpdateStage::Done
            } else {
                UpdateStage::RectangleHeader { left: (left - 1) as nat }
            },
            drawn(screen, rgb, patch),
            rest,
            steps,
        ),
{
    let header = two_bytes(patch.x) + two_bytes(patch.y) + two_bytes(patch.width) + two_bytes(
        patch.height,
    ) + seq![0u8, 0, 0, 0];
    assert(patch_bytes(patch) + rest =~= header + (patch.pixels + rest));
    lemma_reading(
        screen,
        UpdateStage::RectangleHeader { left },
        rgb,
        header,
        patch.pixels + rest,
        patch_steps(patch) + steps,
    );
    assert(vnc::described_rectangle(header) == rectangle(patch));
    assert(vnc::with_rows(screen, rgb, rectangle(patch), patch.pixels, 0, 0) =~= rgb);
    if patch.height > 0 {
        assert(0 * (patch.width * pixel_size(screen)) == 0) by (nonlinear_arith);
        assert(patch.pixels.skip(0) =~= patch.pixels);
        lemma_rows(screen, rgb, patch, left, rest, steps, 0);
    } else {
        assert(patch.height * patch.width * pixel_size(screen) == 0) by (nonlinear_arith)
            requires
                patch.height == 0,
        ;
        assert(patch.pixels + rest =~= rest);
    }
}

proof fn lemma_patches(
    screen: VncScreen,
    rgb: Seq<u8>,
    patches: Seq<Patch>,
    rest: Seq<u8>,
)
    requires
        forall|i: int| 0 <= i < patches.len() ==> fits(screen, #[trigger] patches[i]),
    ensures
        reading(
            screen,
            if patches.len() == 0 {
                UpdateStage::Done
            } else {
                UpdateStage::RectangleHeader { left: patches.len() }
            },
            rgb,
            all_bytes(patches) + rest,
            all_steps(patches),
        ) == (UpdateStage::Done, all_drawn(screen, rgb, patches), rest),
    decreases patches.len(),
{
    if patches.len() == 0 {
        assert(all_bytes(patches) + rest =~= rest);
    } else {
        let more = patches.skip(1);
        assert forall|i: int| 0 <= i < more.len() implies fits(screen, #[trigger] more[i]) by {
            assert(more[i] == patches[i + 1]);
        }
        assert(fits(screen, patches[0]));
        assert(all_bytes(patches) + rest =~= patch_bytes(patches[0]) + (all_bytes(more) + rest));
        lemma_patch(
            screen,
            rgb,
            patches[0],
            patches.len(),
            all_bytes(more) + rest,
            all_steps(more),
        );
        lemma_patches(screen, drawn(screen, rgb, patches[0]), more, rest);
    }
}

proof fn lemma_last_drawn(screen: VncScreen, rgb: Seq<u8>, patches: Seq<Patch>)
    requires
        patches.len() > 0,
    ensures
        all_drawn(screen, rgb, patches) == drawn(
            screen,
            all_drawn(screen, rgb, patches.drop_last()),
            patches.last(),
        ),
    decreases patches.len(),
{
    reveal_with_fuel(all_drawn, 2);
    if patches.len() > 1 {
        let more = patches.skip(1);
        lemma_last_drawn(screen, drawn(screen, rgb, patches[0]), more);
        assert(more.drop_last() =~= patches.drop_last().skip(1));
        assert(more.last() == patches.last());
    } else {
        assert(patches.skip(1) =~= Seq::empty());
        assert(patches.drop_last() =~= Seq::empty());
    }
}

proof fn lemma_shows(screen: VncScreen, rgb: Seq<u8>, patches: Seq<Patch>)
    requires
        forall|i: int| 0 <= i < patches.len() ==> fits(screen, #[trigger] patches[i]),
        rgb.len() == screen.width * screen.height * 3,
        forall|i: int| 0 <= i < rgb.len() ==> rgb[i] == 0,
    ensures
        shows(screen, all_drawn(screen, rgb, patches), patches),
    decreases patches.len(),
{
    let frame = all_drawn(screen, rgb, patches);
    if patches.len() > 0 {
        let fewer = patches.drop_last();
        let patch = patches.last();
        assert forall|i: int| 0 <= i < fewer.len() implies fits(screen, #[trigger] fewer[i]) by {
            assert(fewer[i] == patches[i]);
        }
        assert(fits(screen, patches[patches.len() - 1]));
        lemma_shows(screen, rgb, fewer);
        lemma_last_drawn(screen, rgb, patches);
        let before = all_drawn(screen, rgb, fewer);
        assert forall|column: int, line: int|
            0 <= column < screen.width && 0 <= line < screen.height implies ({
            let color = #[trigger] color_at(screen, patches, column, line);
            let at = (line * screen.width + column) * 3;
            frame[at] == color.0 && frame[at + 1] == color.1 && frame[at + 2] == color.2
        }) by {
            let at = (line * screen.width + column) * 3;
            vnc::lemma_pixel_place(screen, column, line, 0);
            vnc::lemma_pixel_place(screen, column, line, 1);
            vnc::lemma_pixel_place(screen, column, line, 2);
            let below = color_at(screen, fewer, column, line);
            assert(before[at] == below.0 && before[at + 1] == below.1 && before[at + 2] == below.2);
            if covers(patch, column, line) {
                lemma_pixel(screen, patch, column, line);
            }
        }
    } else {
        assert forall|column: int, line: int|
            0 <= column < screen.width && 0 <= line < screen.height implies ({
            let color = #[trigger] color_at(screen, patches, column, line);
            let at = (line * screen.width + column) * 3;
            frame[at] == color.0 && frame[at + 1] == color.1 && frame[at + 2] == color.2
        }) by {
            vnc::lemma_pixel_place(screen, column, line, 0);
        }
    }
}

proof fn lemma_pixel(screen: VncScreen, patch: Patch, column: int, line: int)
    requires
        fits(screen, patch),
        covers(patch, column, line),
    ensures
        ({
            let size = pixel_size(screen);
            let at = ((line - patch.y) * patch.width + (column - patch.x)) * size;
            let row = vnc::row_of(screen, rectangle(patch), patch.pixels, line - patch.y);
            vnc::row_pixel(screen, row, column - patch.x) == vnc::pixel_color(
                screen.format,
                patch.pixels.subrange(at, at + size),
            )
        }),
{
    let size = pixel_size(screen);
    let r = line - patch.y;
    let c = column - patch.x;
    let w = patch.width;
    let h = patch.height;
    let at = (r * w + c) * size;
    let wide = w * size;
    assert(at == r * wide + c * size && 0 <= r * wide && r * wide + wide <= h * w * size && 0 <= c
        * size && c * size + size <= wide) by (nonlinear_arith)
        requires
            at == (r * w + c) * size,
            wide == w * size,
            0 <= r < h,
            0 <= c < w,
            size >= 0,
    ;
    let row = vnc::row_of(screen, rectangle(patch), patch.pixels, r);
    assert(row.subrange(c * size, c * size + size) =~= patch.pixels.subrange(at, at + size));
}

/// An update of the screen is read to its last byte and no further, however many patches it
/// brings, and the frame then has at each place the color of the last patch that covers it.
pub proof fn updates_are_drawn_whole(
    screen: VncScreen,
    before: Seq<u8>,
    patches: Seq<Patch>,
    rest: Seq<u8>,
)
    requires
        patches.len() < 65536,
        forall|i: int| 0 <= i < patches.len() ==> fits(screen, #[trigger] patches[i]),
    ensures
        exists|steps: nat|
            {
                let (stage, rgb, unread) = #[trigger] reading(
                    screen,
                    UpdateStage::MessageType,
                    before,
                    update_bytes(patches) + rest,
                    steps,
                );
                stage is Done && unread == rest && shows(screen, rgb, patches)
            },
{
    let count = two_bytes(patches.len() as int);
    let body = all_bytes(patches) + rest;
    let kind = seq![0u8];
    let header = seq![0u8] + count;
    let black = Seq::new(
        (screen.width * screen.height * 3) as nat,
        |i: int| 0u8,
    );
    let steps = all_steps(patches) + 2;
    assert(update_bytes(patches) + rest =~= kind + (header + body));
    lemma_reading(screen, UpdateStage::MessageType, before, kind, header + body, steps);
    lemma_reading(
        screen,
        UpdateStage::UpdateHeader,
        before,
        header,
        body,
        (steps - 1) as nat,
    );
    assert(vnc::be16(header, 1) == patches.len());
    assert(screen.width * screen.height * 3 >= 0) by (nonlinear_arith);
    assert(vnc::black_frame(screen) =~= black);
    lemma_patches(screen, black, patches, rest);
    lemma_shows(screen, black, patches);
    let (stage, rgb, unread) = reading(
        screen,
        UpdateStage::MessageType,
        before,
        update_bytes(patches) + rest,
        steps,
    );
    assert(stage is Done && unread == rest && shows(screen, rgb, patches));
}

/// A patch in another encoding, or one that does not fit on the screen, fails the reading, after
/// any patches that were in order.
pub proof fn bad_patches_fail_the_reading(
    screen: VncScreen,
    rgb: Seq<u8>,
    left: nat,
    header: Seq<u8>,
    tail: Seq<u8>,
)
    requires
        left > 0,
        header.len() == 12,
        header[8] != 0 || header[9] != 0 || header[10] != 0 || header[11] != 0 || header[0] * 256
            + header[1] + header[4] * 256 + header[5] > screen.width || header[2] * 256 + header[3]
            + header[6] * 256 + header[7] > screen.height,
    ensures
        reading(screen, UpdateStage::RectangleHeader { left }, rgb, header + tail, 1).0 is Failed,
{
    lemma_reading(screen, UpdateStage::RectangleHeader { left }, rgb, header, tail, 1);
}

/// A message of a kind that is neither an update, nor a bell, nor a clipboard fails the reading.
pub proof fn unknown_messages_fail_the_reading(
    screen: VncScreen,
    rgb: Seq<u8>,
    kind: u8,
    tail: Seq<u8>,
)
    ensures
        (reading(screen, UpdateStage::MessageType, rgb, seq![kind] + tail, 1).0 is Failed) == (kind
            != 0 && kind != 2 && kind != 3),
{
    lemma_reading(screen, UpdateStage::MessageType, rgb, seq![kind], tail, 1);
}

/// The number that the bytes of a pixel write.
pub open spec fn written_value(format: VncPixelFormat, bytes: Seq<u8>) -> int {
    let b = if format.big_endian {
        bytes.reverse()
    } else {
        bytes
    };
    if format.bits_per_pixel == 8 {
        b[0] as int
    } else if format.bits_per_pixel == 16 {
        b[0] + 256 * b[1]
    } else {
        b[0] + 256 * b[1] + 65536 * b[2] + 16777216 * b[3]
    }
}

/// A power of two.
pub open spec fn two_to(exponent: nat) -> nat {
    vstd::arithmetic::power2::pow2(exponent)
}

/// The share of a color in a pixel whose color takes `bits` bits from `shift` on, of 255.
pub open spec fn share(value: int, shift: nat, bits: nat) -> int {
    value / two_to(shift) as int % two_to(bits) as int * 255 / (two_to(bits) - 1)
}

proof fn lemma_share(value: u32, shift: u8, max: u16, bits: nat)
    requires
        0 < bits <= 16,
        max == two_to(bits) - 1,
        shift < 32,
    ensures
        vnc::scaled_color(value, shift, max) == share(value as int, shift as nat, bits),
{
    let shifted: u32 = value >> (shift as u32);
    let whole = two_to(bits) as int;
    vstd::bits::lemma_u32_shr_is_div(value, shift as u32);
    vstd::bits::lemma_u32_low_bits_mask_is_mod(shifted, bits);
    vstd::bits::lemma_u32_pow2_no_overflow(bits);
    vstd::arithmetic::power2::lemma_pow2_pos(bits);
    vstd::arithmetic::power2::lemma_pow2_pos(shift as nat);
    vstd::arithmetic::power2::lemma_pow2_unfold(bits);
    vstd::arithmetic::power2::lemma_pow2_pos((bits - 1) as nat);
    assert(whole > 1);
    assert(vstd::bits::low_bits_mask(bits) as u32 == max as u32);
    let part = shifted as int % whole;
    assert(part * 255 / (whole - 1) <= 255 && part * 255 / (whole - 1) >= 0) by (nonlinear_arith)
        requires
            0 <= part < whole,
            whole > 1,
    ;
}

/// The colors of a pixel, for every order of bytes, size of pixels and place of colors: red, green
/// and blue are the shares of their bits in the number that the bytes write.
pub proof fn pixels_are_decoded(
    format: VncPixelFormat,
    bytes: Seq<u8>,
    red: nat,
    green: nat,
    blue: nat,
)
    requires
        format.bits_per_pixel == 8 || format.bits_per_pixel == 16 || format.bits_per_pixel == 32,
        bytes.len() == format.bits_per_pixel / 8,
        0 < red <= 16 && 0 < green <= 16 && 0 < blue <= 16,
        format.red_max == two_to(red) - 1,
        format.green_max == two_to(green) - 1,
        format.blue_max == two_to(blue) - 1,
        format.red_shift < 32 && format.green_shift < 32 && format.blue_shift < 32,
    ensures
        ({
            let value = written_value(format, bytes);
            let color = vnc::pixel_color(format, bytes);
            &&& color.0 == share(value, format.red_shift as nat, red)
            &&& color.1 == share(value, format.green_shift as nat, green)
            &&& color.2 == share(value, format.blue_shift as nat, blue)
        }),
{
    let value = vnc::pixel_value(format, bytes) as u32;
    assert(value == written_value(format, bytes));
    lemma_share(value, format.red_shift, format.red_max, red);
    lemma_share(value, format.green_shift, format.green_max, green);
    lemma_share(value, format.blue_shift, format.blue_max, blue);
}

/// A color that a format does not have is absent.
pub proof fn missing_colors_are_absent(format: VncPixelFormat, bytes: Seq<u8>)
    ensures
        format.red_max == 0 ==> vnc::pixel_color(format, bytes).0 == 0,
        format.green_max == 0 ==> vnc::pixel_color(format, bytes).1 == 0,
        format.blue_max == 0 ==> vnc::pixel_color(format, bytes).2 == 0,
{
}

/// What a server's greeting says of its screen and its pixels is what is drawn on: width, height,
/// size and order of bytes, and where each color lies. Only plain colors in whole bytes are taken.
pub proof fn greetings_describe_the_screen(greeting: Seq<u8>)
    requires
        greeting.len() == 24,
    ensures
        ({
            let screen = vnc::greeted_screen(greeting);
            let format = screen.format;
            &&& screen.width == greeting[0] * 256 + greeting[1]
            &&& screen.height == greeting[2] * 256 + greeting[3]
            &&& format.bits_per_pixel == greeting[4]
            &&& format.big_endian == (greeting[6] != 0)
            &&& format.red_max == greeting[8] * 256 + greeting[9]
            &&& format.green_max == greeting[10] * 256 + greeting[11]
            &&& format.blue_max == greeting[12] * 256 + greeting[13]
            &&& format.red_shift == greeting[14]
            &&& format.green_shift == greeting[15]
            &&& format.blue_shift == greeting[16]
        }),
        vnc::format_refusal(greeting.subrange(4, 20)) is None <==> (greeting[4] == 8 || greeting[4]
            == 16 || greeting[4] == 32) && greeting[7] != 0,
{
}

/// The request for an update is one for the whole screen, and not only for what changed.
pub proof fn requests_are_for_the_whole_screen(screen: VncScreen)
    ensures
        vnc::update_request(screen) == seq![3u8, 0, 0, 0, 0, 0] + two_bytes(screen.width as int)
            + two_bytes(screen.height as int),
{
}

/// A format can be decoded where its pixels take one, two or four bytes and every color that it has
/// lies within 32 bits.
pub proof fn formats_can_be_decoded(format: VncPixelFormat)
    ensures
        format.wf() <==> {
            &&& format.bits_per_pixel == 8 || format.bits_per_pixel == 16 || format.bits_per_pixel
                == 32
            &&& format.red_max > 0 ==> format.red_shift < 32
            &&& format.green_max > 0 ==> format.green_shift < 32
            &&& format.blue_max > 0 ==> format.blue_shift < 32
        },
        format.bits_per_pixel == 8 ==> format.pixel_bytes() == 1,
        format.bits_per_pixel == 16 ==> format.pixel_bytes() == 2,
        format.bits_per_pixel == 32 ==> format.pixel_bytes() == 4,
{
}

} // verus!
