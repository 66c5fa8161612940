//! What a captured picture shows.
use crate::number::{decimal, decimal_signed, parse_u32};
use crate::ocr::{find_ocr_text_matches, ocr_centers_fit};
use crate::screenshot::desktop::Window;
use crate::screenshot::{required_run, CaptureError, ToolRun};
use crate::text::{cat2, cat3, cat4, owned, same, strings, utf8, words};
use crate::{number, ocr, screenshot, text};
use vstd::prelude::*;

verus! {

/// The size of a picture, and whether it shows something.
#[derive(Debug, Clone, Copy, PartialEq, Eq, Structural)]
pub struct ImageInfo {
    pub width: u32,
    pub height: u32,
    pub has_content: bool,
}

// ---------------------------------------------------------------------------
// Sizes

/// Whether `s` begins with digits that already write a number that does not fit.
pub open spec fn outgrows(s: Seq<char>) -> bool {
    exists|k: int|
        0 <= k <= s.len() && number::all_digits(#[trigger] s.take(k)) && number::digits_value(
            s.take(k),
        ) > u32::MAX
}

/// What is said of a text that should be a number and is none that fits: the first thing that is
/// wrong with it.
pub open spec fn number_fault(written: Seq<char>) -> Seq<char> {
    let digits = if written.len() > 0 && written[0] == '+' {
        written.skip(1)
    } else {
        written
    };
    if written.len() == 0 {
        "cannot parse integer from empty string"@
    } else if outgrows(digits) {
        "number too large to fit in target type"@
    } else {
        "invalid digit found in string"@
    }
}

/// The size that a picture's description gives, or what is wrong with it.
pub open spec fn described_size(described: Seq<char>) -> Result<(nat, nat), Seq<char>> {
    let fields = text::words_of(described);
    if !(fields.len() == 3 && fields[0] == "PNG"@) {
        Err("capture must be one PNG image"@)
    } else {
        match (
            number::parse_unsigned(fields[1], u32::MAX as nat),
            number::parse_unsigned(fields[2], u32::MAX as nat),
        ) {
            (None, _) => Err(number_fault(fields[1])),
            (_, None) => Err(number_fault(fields[2])),
            (Some(width), Some(height)) => if width == 0 || height == 0 {
                Err("empty capture image"@)
            } else {
                Ok((width, height))
            },
        }
    }
}

/// Digits that fit, with something else behind them or nothing, do not outgrow.
proof fn lemma_fits(s: Seq<char>, count: int)
    requires
        0 <= count <= s.len(),
        number::all_digits(s.take(count)),
        number::digits_value(s.take(count)) <= u32::MAX,
        count < s.len() ==> !text::is_digit(s[count]),
    ensures
        !outgrows(s),
{
    assert forall|k: int|
        0 <= k <= s.len() && number::all_digits(#[trigger] s.take(k)) implies number::digits_value(
        s.take(k),
    ) <= u32::MAX by {
        if k > count {
            assert(s.take(k)[count] == s[count]);
        } else {
            number::lemma_value_monotone(s.take(count), k);
            assert(s.take(count).take(k) =~= s.take(k));
        }
    }
}

fn digits_outgrow(all: &[char], from: usize) -> (yes: bool)
    requires
        from <= all@.len(),
    ensures
        yes == outgrows(all@.skip(from as int)),
{
    let ghost s = all@.skip(from as int);
    let mut i: usize = from;
    let mut value: u64 = 0;
    while i < all.len()
        invariant
            from <= i <= all@.len(),
            s == all@.skip(from as int),
            number::all_digits(s.take(i - from)),
            value == number::digits_value(s.take(i - from)),
            value <= u32::MAX,
        decreases all@.len() - i,
    {
        let c = all[i];
        assert(s[i - from] == c);
        if c < '0' || '9' < c {
            proof {
                lemma_fits(s, i - from);
            }
            return false;
        }
        value = value * 10 + (c as u64 - 48);
        assert(s.take(i - from + 1).drop_last() =~= s.take(i - from));
        assert(s.take(i - from + 1) =~= s.take(i - from).push(c));
        if value > u32::MAX as u64 {
            return true;
        }
        i = i + 1;
    }
    proof {
        lemma_fits(s, s.len() as int);
    }
    false
}

fn number_error(written: &str) -> (out: String)
    ensures
        out@ == number_fault(written@),
{
    let all = text::chars(written);
    assert(all@.skip(0) =~= all@);
    if all.len() == 0 {
        return owned("cannot parse integer from empty string");
    }
    let from: usize = if all[0] == '+' {
        1
    } else {
        0
    };
    if digits_outgrow(&all, from) {
        owned("number too large to fit in target type")
    } else {
        owned("invalid digit found in string")
    }
}

/// The size that a picture's description gives.
pub fn parse_size(described: &str) -> (out: Result<(u32, u32), String>)
    ensures
        match described_size(described@) {
            Ok(size) => out matches Ok((width, height)) && (width as nat, height as nat) == size,
            Err(fault) => out matches Err(message) && message@ == fault,
        },
{
    let fields = words(described);
    assert(forall|i: int|
        0 <= i < fields@.len() ==> (#[trigger] fields@[i])@ == text::views(fields@)[i]);
    if !(fields.len() == 3 && same(fields[0].as_str(), "PNG")) {
        return Err(owned("capture must be one PNG image"));
    }
    let width = match parse_u32(fields[1].as_str()) {
        Some(width) => width,
        None => return Err(number_error(fields[1].as_str())),
    };
    let height = match parse_u32(fields[2].as_str()) {
        Some(height) => height,
        None => return Err(number_error(fields[2].as_str())),
    };
    if width == 0 || height == 0 {
        return Err(owned("empty capture image"));
    }
    Ok((width, height))
}

// ---------------------------------------------------------------------------
// The interior of a window

/// A part of a picture.
#[derive(Debug, Clone, Copy, PartialEq, Eq, Structural)]
pub struct Region {
    pub x: i64,
    pub y: i64,
    pub width: u32,
    pub height: u32,
}

/// The height of the strip at the top of a window that is left to its header.
pub open spec fn header_height(window: Window) -> int {
    let quarter = window.frame.height as int / 4;
    if quarter < 64 {
        quarter
    } else {
        64
    }
}

/// `a - b`, or zero where that is below zero.
pub open spec fn less(a: int, b: int) -> int {
    if a >= b {
        a - b
    } else {
        0
    }
}

/// The interior of a window in its picture: without the shadow, eight pixels at each edge, and
/// the header.
pub open spec fn interior(window: Window) -> (int, int, int, int) {
    (
        window.frame.x - window.buffer.x + 8,
        window.frame.y - window.buffer.y + header_height(window) + 8,
        less(window.frame.width as int, 16),
        less(window.frame.height as int, header_height(window) + 16),
    )
}

/// Whether a window has an interior, and it lies within a picture of the given size.
pub open spec fn interior_fits(window: Window, width: nat, height: nat) -> bool {
    let (x, y, content_width, content_height) = interior(window);
    &&& x >= 0
    &&& y >= 0
    &&& content_width > 0
    &&& content_height > 0
    &&& x + content_width <= width
    &&& y + content_height <= height
}

/// The interior of a window in its picture.
pub fn content_region(window: &Window, width: u32, height: u32) -> (out: Result<Region, String>)
    ensures
        interior_fits(*window, width as nat, height as nat) ==> (out matches Ok(region) && (
            region.x as int,
            region.y as int,
            region.width as int,
            region.height as int,
        ) == interior(*window)),
        !interior_fits(*window, width as nat, height as nat) ==> (out matches Err(message)
            && message@ == "invalid window content geometry"@),
{
    let quarter: u32 = window.frame.height / 4;
    let header: u32 = if quarter < 64 {
        quarter
    } else {
        64
    };
    let x: i64 = window.frame.x as i64 - window.buffer.x as i64 + 8;
    let y: i64 = window.frame.y as i64 - window.buffer.y as i64 + header as i64 + 8;
    let content_width: u32 = window.frame.width.saturating_sub(16);
    let content_height: u32 = window.frame.height.saturating_sub(header + 16);
    if x >= 0 && y >= 0 && content_width > 0 && content_height > 0 && x + content_width as i64
        <= width as i64 && y + content_height as i64 <= height as i64 {
        Ok(Region { x, y, width: content_width, height: content_height })
    } else {
        Err(owned("invalid window content geometry"))
    }
}

/// A region as ImageMagick writes it.
pub open spec fn region_text(region: Region) -> Seq<char> {
    number::decimal_seq(region.width as nat) + "x"@ + number::decimal_seq(region.height as nat)
        + "+"@ + number::decimal_int(region.x as int) + "+"@ + number::decimal_int(region.y as int)
}

impl Region {
    /// The region as ImageMagick writes it.
    pub fn geometry(&self) -> (out: String)
        ensures
            out@ == region_text(*self),
    {
        let size = cat3(
            decimal(self.width as u128).as_str(),
            "x",
            decimal(self.height as u128).as_str(),
        );
        let place = cat4(
            "+",
            decimal_signed(self.x).as_str(),
            "+",
            decimal_signed(self.y).as_str(),
        );
        let out = cat2(size.as_str(), place.as_str());
        assert(out@ =~= region_text(*self));
        out
    }
}

/// The interior never holds the header: it begins below the strip at the top of the frame, and
/// ends within the frame.
pub proof fn the_interior_leaves_the_header_out(window: Window, width: nat, height: nat)
    requires
        interior_fits(window, width, height),
    ensures
        ({
            let (x, y, content_width, content_height) = interior(window);
            let left = window.frame.x - window.buffer.x;
            let top = window.frame.y - window.buffer.y;
            &&& left < x
            &&& x + content_width < left + window.frame.width
            &&& top + header_height(window) < y
            &&& y + content_height < top + window.frame.height
        }),
{
}

// ---------------------------------------------------------------------------
// The inspection of a picture

/// How far the inspection of a picture has come.
#[derive(Debug)]
pub enum Inspection {
    /// Ask for the picture's description.
    Describe,
    /// Measure its interior.
    Measure { width: u32, height: u32, region: Region },
    Done { info: ImageInfo },
    Failed { error: CaptureError },
}

impl Inspection {
    pub open spec fn fails_with(&self, message: Seq<char>) -> bool {
        *self matches Inspection::Failed { error } && error.says(None, message)
    }
}

fn inspection_error(message: String) -> (out: Inspection)
    ensures
        out.fails_with(message@),
{
    Inspection::Failed { error: CaptureError::plain(message) }
}

/// What a picture's description says: its size and its interior, or what is wrong.
pub open spec fn description_fault(window: Window, stdout: Seq<u8>) -> Option<Seq<char>> {
    if !vstd::utf8::valid_utf8(stdout) {
        Some(text::utf8_complaint(stdout))
    } else {
        match described_size(vstd::utf8::decode_utf8(stdout)) {
            Err(fault) => Some(fault),
            Ok((width, height)) => if interior_fits(window, width, height) {
                None
            } else {
                Some("invalid window content geometry"@)
            },
        }
    }
}

impl Inspection {
    /// Goes on with a picture's description.
    pub fn described(run: Result<ToolRun, String>, window: &Window) -> (out: Self)
        ensures
            match screenshot::run_fault(run, "invalid capture image"@) {
                Some(fault) => out.fails_with(fault),
                None => match description_fault(*window, run->Ok_0.stdout@) {
                    Some(fault) => out.fails_with(fault),
                    None => {
                        let size = described_size(
                            vstd::utf8::decode_utf8(run->Ok_0.stdout@),
                        )->Ok_0;
                        out matches Inspection::Measure { width, height, region } && (
                            width as nat,
                            height as nat,
                        ) == size && (
                            region.x as int,
                            region.y as int,
                            region.width as int,
                            region.height as int,
                        ) == interior(*window)
                    },
                },
            },
    {
        let done = match required_run(run, "invalid capture image") {
            Ok(done) => done,
            Err(error) => return Inspection::Failed { error },
        };
        let described = match utf8(&done.stdout) {
            Ok(described) => described,
            Err(message) => return inspection_error(message),
        };
        let (width, height) = match parse_size(described.as_str()) {
            Ok(size) => size,
            Err(message) => return inspection_error(message),
        };
        match content_region(window, width, height) {
            Ok(region) => Inspection::Measure { width, height, region },
            Err(message) => inspection_error(message),
        }
    }

    /// Ends with the measure of the interior. `deviates` tells whether it varies enough to show
    /// something, or why that is not known.
    pub fn measured(
        run: Result<ToolRun, String>,
        width: u32,
        height: u32,
        deviates: Result<bool, String>,
    ) -> (out: Self)
        ensures
            match screenshot::run_fault(run, "measuring app content"@) {
                Some(fault) => out.fails_with(fault),
                None => match deviates {
                    Err(message) => out.fails_with(message@),
                    Ok(has_content) => out == (Inspection::Done {
                        info: ImageInfo { width, height, has_content },
                    }),
                },
            },
    {
        match required_run(run, "measuring app content") {
            Err(error) => Inspection::Failed { error },
            Ok(_) => match deviates {
                Err(message) => inspection_error(message),
                Ok(has_content) => Inspection::Done {
                    info: ImageInfo { width, height, has_content },
                },
            },
        }
    }
}

/// The arguments that describe a picture, before it.
pub fn describe_args() -> (out: Vec<String>)
    ensures
        text::views(out@) == seq!["-format"@, "%m %w %h"@],
{
    let out = strings(vec!["-format", "%m %w %h"]);
    assert(text::views(out@) =~= seq!["-format"@, "%m %w %h"@]);
    out
}

/// The arguments that measure a region of a picture, behind it.
pub fn measure_args(region: &Region) -> (out: Vec<String>)
    ensures
        text::views(out@) == seq![
            "-crop"@,
            region_text(*region),
            "+repage"@,
            "-background"@,
            "white"@,
            "-alpha"@,
            "remove"@,
            "-alpha"@,
            "off"@,
            "-format"@,
            "%[fx:standard_deviation]"@,
            "info:"@,
        ],
{
    let geometry = region.geometry();
    let out = strings(
        vec![
            "-crop",
            geometry.as_str(),
            "+repage",
            "-background",
            "white",
            "-alpha",
            "remove",
            "-alpha",
            "off",
            "-format",
            "%[fx:standard_deviation]",
            "info:",
        ],
    );
    assert(text::views(out@) =~= seq![
        "-crop"@,
        region_text(*region),
        "+repage"@,
        "-background"@,
        "white"@,
        "-alpha"@,
        "remove"@,
        "-alpha"@,
        "off"@,
        "-format"@,
        "%[fx:standard_deviation]"@,
        "info:"@,
    ]);
    out
}

// ---------------------------------------------------------------------------
// Recognised text

/// What the text of a picture is read from.
#[derive(Debug)]
pub enum Reading {
    /// Enlarge the picture.
    Enlarge,
    /// Make a copy of it in black and white.
    Contrast,
    /// Read the text of the enlarged picture, and then of the copy.
    Read { passes: Vec<String> },
    Done { passes: Vec<String> },
    Failed { error: CaptureError },
}

impl Reading {
    pub open spec fn fails_with(&self, message: Seq<char>) -> bool {
        *self matches Reading::Failed { error } && error.says(None, message)
    }
}

/// The arguments that enlarge a picture, between it and the name of the new one.
pub open spec fn enlarge_arguments() -> Seq<Seq<char>> {
    seq![
        "-background"@,
        "white"@,
        "-alpha"@,
        "remove"@,
        "-alpha"@,
        "off"@,
        "-resize"@,
        "200%"@,
    ]
}

/// The arguments that make a copy in black and white, between the picture and the copy's name.
pub open spec fn contrast_arguments() -> Seq<Seq<char>> {
    seq!["-colorspace"@, "Gray"@, "-threshold"@, "60%"@]
}

/// The arguments that read a picture's text, behind it.
pub open spec fn read_arguments() -> Seq<Seq<char>> {
    seq!["stdout"@, "-l"@, "eng"@, "--psm"@, "11"@, "tsv"@]
}

impl Reading {
    /// The program to run next, and its arguments.
    pub fn call(&self) -> (out: Option<(String, Vec<String>)>)
        ensures
            match *self {
                Reading::Enlarge => out matches Some((program, args)) && program@ == "convert"@
                    && text::views(args@) == enlarge_arguments(),
                Reading::Contrast => out matches Some((program, args)) && program@ == "convert"@
                    && text::views(args@) == contrast_arguments(),
                Reading::Read { .. } => out matches Some((program, args)) && program@
                    == "tesseract"@ && text::views(args@) == read_arguments(),
                _ => out is None,
            },
    {
        match self {
            Reading::Enlarge => {
                let args = strings(
                    vec![
                        "-background",
                        "white",
                        "-alpha",
                        "remove",
                        "-alpha",
                        "off",
                        "-resize",
                        "200%",
                    ],
                );
                assert(text::views(args@) =~= enlarge_arguments());
                Some((owned("convert"), args))
            },
            Reading::Contrast => {
                let args = strings(vec!["-colorspace", "Gray", "-threshold", "60%"]);
                assert(text::views(args@) =~= contrast_arguments());
                Some((owned("convert"), args))
            },
            Reading::Read { .. } => {
                let args = strings(vec!["stdout", "-l", "eng", "--psm", "11", "tsv"]);
                assert(text::views(args@) =~= read_arguments());
                Some((owned("tesseract"), args))
            },
            _ => None,
        }
    }

    /// Goes on after a run.
    pub fn advance(self, run: Result<ToolRun, String>) -> (out: Self)
        ensures
            match self {
                Reading::Enlarge => match screenshot::run_fault(run, "preparing OCR image"@) {
                    Some(fault) => out.fails_with(fault),
                    None => out is Contrast,
                },
                Reading::Contrast => match screenshot::run_fault(
                    run,
                    "preparing contrast OCR image"@,
                ) {
                    Some(fault) => out.fails_with(fault),
                    None => out matches Reading::Read { passes } && passes@.len() == 0,
                },
                Reading::Read { passes } => match screenshot::run_fault(
                    run,
                    "reading screenshot text"@,
                ) {
                    Some(fault) => out.fails_with(fault),
                    None => {
                        let bytes = run->Ok_0.stdout@;
                        if !vstd::utf8::valid_utf8(bytes) {
                            out.fails_with(
                                "invalid OCR text encoding"@ + ": "@ + text::utf8_complaint(bytes),
                            )
                        } else {
                            let read = text::views(passes@).push(vstd::utf8::decode_utf8(bytes));
                            if read.len() < 2 {
                                out matches Reading::Read { passes: more } && text::views(more@)
                                    == read
                            } else {
                                out matches Reading::Done { passes: all } && text::views(all@)
                                    == read
                            }
                        }
                    },
                },
                _ => out == self,
            },
    {
        match self {
            Reading::Enlarge => match required_run(run, "preparing OCR image") {
                Ok(_) => Reading::Contrast,
                Err(error) => Reading::Failed { error },
            },
            Reading::Contrast => match required_run(run, "preparing contrast OCR image") {
                Ok(_) => Reading::Read { passes: Vec::new() },
                Err(error) => Reading::Failed { error },
            },
            Reading::Read { passes } => match required_run(run, "reading screenshot text") {
                Err(error) => Reading::Failed { error },
                Ok(done) => match utf8(&done.stdout) {
                    Err(message) => Reading::Failed {
                        error: CaptureError::plain(message).context("invalid OCR text encoding"),
                    },
                    Ok(table) => {
                        let mut more = passes;
                        proof {
                            text::lemma_views_push(more@, table);
                        }
                        more.push(table);
                        assert(text::views(more@).len() == more@.len());
                        if more.len() < 2 {
                            Reading::Read { passes: more }
                        } else {
                            Reading::Done { passes: more }
                        }
                    },
                },
            },
            reading => reading,
        }
    }
}

// ---------------------------------------------------------------------------
// Where a label stands

/// Whether two places, counted in halves of a pixel, are no more than four pixels apart.
pub open spec fn close(a: (int, int), b: (int, int)) -> bool {
    (a.0 - b.0) * (a.0 - b.0) + (a.1 - b.1) * (a.1 - b.1) <= 64
}

/// Whether a place is close to one of some others.
pub open spec fn close_to_any(point: (int, int), others: Seq<(int, int)>) -> bool {
    exists|i: int| 0 <= i < others.len() && close(#[trigger] others[i], point)
}

/// `known` and those of `found` that are not close to any of `known`.
pub open spec fn with_new(known: Seq<(int, int)>, found: Seq<(int, int)>) -> Seq<(int, int)>
    decreases found.len(),
{
    if found.len() == 0 {
        known
    } else {
        let before = with_new(known, found.drop_last());
        if close_to_any(found.last(), known) {
            before
        } else {
            before.push(found.last())
        }
    }
}

/// The places of a label in a table.
pub open spec fn label_places(table: Seq<char>, label: Seq<char>) -> Seq<(int, int)> {
    ocr::text_centers(ocr::table_words(table), ocr::normal_words(label))
}

/// The places of a label over several readings of one picture at twice its size, in halves of a
/// pixel: each reading adds those that no earlier one found.
pub open spec fn label_matches(passes: Seq<Seq<char>>, label: Seq<char>) -> Seq<(int, int)>
    decreases passes.len(),
{
    if passes.len() == 0 {
        Seq::empty()
    } else {
        with_new(label_matches(passes.drop_last(), label), label_places(passes.last(), label))
    }
}

/// Whether the places of a label can be computed in all readings.
pub open spec fn places_fit(passes: Seq<Seq<char>>, label: Seq<char>) -> bool {
    forall|i: int| 0 <= i < passes.len() ==> ocr::centers_fit(#[trigger] passes[i], label)
}

fn is_close(a: (i32, i32), b: (i32, i32)) -> (yes: bool)
    ensures
        yes == close((a.0 as int, a.1 as int), (b.0 as int, b.1 as int)),
{
    let dx: i128 = a.0 as i128 - b.0 as i128;
    let dy: i128 = a.1 as i128 - b.1 as i128;
    assert(0 <= dx * dx <= 0x1_0000_0000 * 0x1_0000_0000) by (nonlinear_arith)
        requires
            -0x1_0000_0000 <= dx <= 0x1_0000_0000,
    ;
    assert(0 <= dy * dy <= 0x1_0000_0000 * 0x1_0000_0000) by (nonlinear_arith)
        requires
            -0x1_0000_0000 <= dy <= 0x1_0000_0000,
    ;
    dx * dx + dy * dy <= 64
}

fn is_close_to_any(point: (i32, i32), others: &Vec<(i32, i32)>, count: usize) -> (yes: bool)
    requires
        count <= others@.len(),
    ensures
        yes == close_to_any(
            (point.0 as int, point.1 as int),
            ocr::points(others@).take(count as int),
        ),
{
    let ghost known = ocr::points(others@).take(count as int);
    let ghost place = (point.0 as int, point.1 as int);
    let mut i: usize = 0;
    while i < count
        invariant
            i <= count <= others@.len(),
            known == ocr::points(others@).take(count as int),
            place == (point.0 as int, point.1 as int),
            forall|k: int| 0 <= k < i ==> !close(#[trigger] known[k], place),
        decreases count - i,
    {
        assert(known[i as int] == (others@[i as int].0 as int, others@[i as int].1 as int));
        if is_close(others[i], point) {
            return true;
        }
        i = i + 1;
    }
    false
}

/// The places of a label over several readings of one picture at twice its size, in halves of a
/// pixel. `None` where a reading gives places that 32-bit numbers cannot hold.
pub fn matches(passes: &Vec<String>, label: &str) -> (out: Option<Vec<(i32, i32)>>)
    ensures
        match out {
            Some(found) => places_fit(text::views(passes@), label@) && ocr::points(found@)
                == label_matches(text::views(passes@), label@),
            None => !places_fit(text::views(passes@), label@),
        },
{
    let ghost tables = text::views(passes@);
    let mut found: Vec<(i32, i32)> = Vec::new();
    let mut i: usize = 0;
    assert(tables.take(0) =~= Seq::empty());
    assert(ocr::points(found@) =~= Seq::empty());
    while i < passes.len()
        invariant
            i <= passes@.len(),
            tables == text::views(passes@),
            forall|k: int| 0 <= k < i ==> ocr::centers_fit(#[trigger] tables[k], label@),
            ocr::points(found@) == label_matches(tables.take(i as int), label@),
        decreases passes@.len() - i,
    {
        let table = passes[i].as_str();
        proof {
            assert(tables[i as int] == table@);
            assert(tables.take(i + 1).drop_last() =~= tables.take(i as int));
            assert(tables.take(i + 1).last() == table@);
        }
        if !ocr_centers_fit(table, label) {
            return None;
        }
        let places = find_ocr_text_matches(table, label);
        let ghost before = found@;
        let ghost known = ocr::points(before);
        let ghost new = ocr::points(places@);
        let count: usize = found.len();
        let mut j: usize = 0;
        assert(new.take(0) =~= Seq::empty());
        while j < places.len()
            invariant
                j <= places@.len(),
                count == before.len(),
                count <= found@.len(),
                known == ocr::points(before),
                new == ocr::points(places@),
                ocr::points(found@).take(count as int) == known,
                ocr::points(found@) == with_new(known, new.take(j as int)),
            decreases places@.len() - j,
        {
            proof {
                assert(new.take(j + 1).drop_last() =~= new.take(j as int));
                assert(new.take(j + 1).last() == (
                    places@[j as int].0 as int,
                    places@[j as int].1 as int,
                ));
            }
            let point = places[j];
            if !is_close_to_any(point, &found, count) {
                let ghost had = found@;
                found.push(point);
                assert(ocr::points(found@) =~= ocr::points(had).push(
                    (point.0 as int, point.1 as int),
                ));
                assert(ocr::points(found@).take(count as int) =~= ocr::points(had).take(
                    count as int,
                ));
            }
            j = j + 1;
        }
        assert(new.take(new.len() as int) =~= new);
        i = i + 1;
    }
    assert(tables.take(tables.len() as int) =~= tables);
    Some(found)
}

/// A label that a second reading finds where the first did counts once.
pub proof fn the_same_place_counts_once(known: Seq<(int, int)>, found: Seq<(int, int)>)
    requires
        forall|i: int| 0 <= i < found.len() ==> close_to_any(#[trigger] found[i], known),
    ensures
        with_new(known, found) == known,
    decreases found.len(),
{
    if found.len() > 0 {
        let shorter = found.drop_last();
        assert forall|i: int| 0 <= i < shorter.len() implies close_to_any(
            #[trigger] shorter[i],
            known,
        ) by {
            assert(found[i] == shorter[i]);
        }
        the_same_place_counts_once(known, shorter);
        assert(close_to_any(found[found.len() - 1], known));
    }
}

} // verus!
