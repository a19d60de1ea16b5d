use vstd::prelude::*;
use vstd::string::{StrSliceExecFns, StringExecFns};

use crate::decimal::{append_decimal, spec_decimal_text};
use crate::paths::RegistryScope;
use crate::video_format::{spec_default_format, VideoFormat};

verus! {

/// The options the command-line tools take a value for.
#[derive(Clone, Copy, Debug, PartialEq, Eq, Structural)]
pub enum CliOption {
    Scope,
    DllPath,
    Subtype,
    Width,
    Height,
    Fps,
    DurationSeconds,
}

/// Why a decimal number did not parse.
#[derive(Clone, Copy, Debug, PartialEq, Eq, Structural)]
pub enum NumberError {
    /// The text is empty.
    Empty,
    /// A character is not a decimal digit.
    InvalidDigit,
    /// The value does not fit in 32 bits.
    Overflow,
}

/// Why a command line was refused. Indices point into the argument list
/// the parser was given.
#[derive(Clone, Copy, Debug, PartialEq, Eq, Structural)]
pub enum CliError {
    /// The option at the end of the list has no value.
    MissingValue(CliOption),
    /// The argument at `index` is not an option of the command.
    UnknownOption { index: usize },
    /// The scope at `index` is neither `user` nor `machine`.
    InvalidScope { index: usize },
    /// The subtype at `index` is neither `rgb32` nor `nv12`.
    InvalidSubtype { index: usize },
    /// A second output path was given.
    TooManyPaths,
    /// The value at `index` of an option is not a 32-bit decimal number.
    InvalidNumber { option: CliOption, index: usize, error: NumberError },
}

/// Whether `text` reads exactly `word`.
pub fn text_is(text: &str, word: &str) -> (b: bool)
    ensures
        b == (text@ == word@),
{
    let n = text.unicode_len();
    let m = word.unicode_len();
    if n != m {
        return false;
    }
    let mut i: usize = 0;
    while i < n
        invariant
            n == text@.len(),
            m == word@.len(),
            n == m,
            i <= n,
            forall|k: int| 0 <= k < i ==> text@[k] == word@[k],
        decreases n - i,
    {
        if text.get_char(i) != word.get_char(i) {
            return false;
        }
        i = i + 1;
    }
    assert(text@ =~= word@);
    true
}

pub open spec fn spec_parse_scope(value: Seq<char>) -> Option<RegistryScope> {
    if value == "user"@ {
        Some(RegistryScope::CurrentUser)
    } else if value == "machine"@ {
        Some(RegistryScope::LocalMachine)
    } else {
        None
    }
}

/// `user` or `machine`.
pub fn parse_scope(value: &str) -> (r: Option<RegistryScope>)
    ensures
        r == spec_parse_scope(value@),
{
    if text_is(value, "user") {
        Some(RegistryScope::CurrentUser)
    } else if text_is(value, "machine") {
        Some(RegistryScope::LocalMachine)
    } else {
        None
    }
}

pub open spec fn view_args(args: Seq<String>) -> Seq<Seq<char>> {
    args.map_values(|s: String| s@)
}

/// Options of the registration commands.
pub struct RegistrationOptions {
    pub scope: RegistryScope,
    pub dll_path: Option<String>,
}

/// `--scope user|machine` and `--dll-path <path>`, in any order, the last
/// one winning; the scope defaults to the current user.
pub open spec fn spec_parse_registration(
    args: Seq<Seq<char>>,
    i: int,
    scope: RegistryScope,
    dll: Option<Seq<char>>,
) -> Result<(RegistryScope, Option<Seq<char>>), CliError>
    decreases args.len() - i,
{
    if i >= args.len() || i < 0 {
        Ok((scope, dll))
    } else if args[i] == "--scope"@ {
        if i + 1 >= args.len() {
            Err(CliError::MissingValue(CliOption::Scope))
        } else {
            match spec_parse_scope(args[i + 1]) {
                None => Err(CliError::InvalidScope { index: (i + 1) as usize }),
                Some(s) => spec_parse_registration(args, i + 2, s, dll),
            }
        }
    } else if args[i] == "--dll-path"@ {
        if i + 1 >= args.len() {
            Err(CliError::MissingValue(CliOption::DllPath))
        } else {
            spec_parse_registration(args, i + 2, scope, Some(args[i + 1]))
        }
    } else {
        Err(CliError::UnknownOption { index: i as usize })
    }
}

pub open spec fn opt_view(o: Option<String>) -> Option<Seq<char>> {
    match o {
        Some(s) => Some(s@),
        None => None,
    }
}

pub fn parse_registration_options(args: &Vec<String>) -> (r: Result<RegistrationOptions, CliError>)
    ensures
        match spec_parse_registration(view_args(args@), 0, RegistryScope::CurrentUser, None) {
            Ok((scope, dll)) => r matches Ok(o) && o.scope == scope && opt_view(o.dll_path) == dll,
            Err(e) => r matches Err(e2) && e2 == e,
        },
{
    let ghost va = view_args(args@);
    let mut scope = RegistryScope::CurrentUser;
    let mut dll_path: Option<String> = None;
    let mut index: usize = 0;
    while index < args.len()
        invariant
            va == view_args(args@),
            index <= args@.len(),
            spec_parse_registration(va, index as int, scope, opt_view(dll_path))
                == spec_parse_registration(va, 0, RegistryScope::CurrentUser, None),
        decreases args@.len() - index,
    {
        let arg = args[index].as_str();
        assert(va[index as int] == arg@);
        if text_is(arg, "--scope") {
            if index + 1 >= args.len() {
                return Err(CliError::MissingValue(CliOption::Scope));
            }
            let value = args[index + 1].as_str();
            assert(va[index + 1] == value@);
            match parse_scope(value) {
                None => { return Err(CliError::InvalidScope { index: index + 1 }); },
                Some(s) => { scope = s; },
            }
            index = index + 2;
        } else if text_is(arg, "--dll-path") {
            if index + 1 >= args.len() {
                return Err(CliError::MissingValue(CliOption::DllPath));
            }
            let value = args[index + 1].as_str();
            assert(va[index + 1] == value@);
            dll_path = Some(String::from_str(value));
            index = index + 2;
        } else {
            return Err(CliError::UnknownOption { index });
        }
    }
    Ok(RegistrationOptions { scope, dll_path })
}

/// The sample layouts the dump command can ask for.
#[derive(Clone, Copy, Debug, PartialEq, Eq, Structural)]
pub enum FrameSubtype {
    Rgb32,
    Nv12,
}

pub open spec fn spec_subtype_label(s: FrameSubtype) -> Seq<char> {
    match s {
        FrameSubtype::Rgb32 => "rgb32"@,
        FrameSubtype::Nv12 => "nv12"@,
    }
}

pub open spec fn spec_parse_subtype(value: Seq<char>) -> Option<FrameSubtype> {
    if value == "rgb32"@ {
        Some(FrameSubtype::Rgb32)
    } else if value == "nv12"@ {
        Some(FrameSubtype::Nv12)
    } else {
        None
    }
}

/// The Media Foundation subtype identifier of RGB32 frames, as a 128-bit
/// number.
pub const RGB32_SUBTYPE_ID: u128 = 0x00000016_0000_0010_8000_00aa00389b71;
/// The Media Foundation subtype identifier of NV12 frames, as a 128-bit
/// number.
pub const NV12_SUBTYPE_ID: u128 = 0x3231564e_0000_0010_8000_00aa00389b71;

pub open spec fn spec_subtype_id(s: FrameSubtype) -> u128 {
    match s {
        FrameSubtype::Rgb32 => RGB32_SUBTYPE_ID,
        FrameSubtype::Nv12 => NV12_SUBTYPE_ID,
    }
}

pub open spec fn spec_subtype_of_id(id: u128) -> Option<FrameSubtype> {
    if id == RGB32_SUBTYPE_ID {
        Some(FrameSubtype::Rgb32)
    } else if id == NV12_SUBTYPE_ID {
        Some(FrameSubtype::Nv12)
    } else {
        None
    }
}

impl FrameSubtype {
    /// The subtype a media subtype identifier names, if it is one of the
    /// two the stream offers.
    pub fn from_guid(value: u128) -> (r: Option<Self>)
        ensures
            r == spec_subtype_of_id(value),
    {
        if value == RGB32_SUBTYPE_ID {
            Some(FrameSubtype::Rgb32)
        } else if value == NV12_SUBTYPE_ID {
            Some(FrameSubtype::Nv12)
        } else {
            None
        }
    }

    /// The media subtype identifier of this subtype.
    pub fn guid(self) -> (v: u128)
        ensures
            v == spec_subtype_id(self),
    {
        match self {
            FrameSubtype::Rgb32 => RGB32_SUBTYPE_ID,
            FrameSubtype::Nv12 => NV12_SUBTYPE_ID,
        }
    }

    /// `rgb32` or `nv12`.
    pub fn parse(value: &str) -> (r: Option<Self>)
        ensures
            r == spec_parse_subtype(value@),
    {
        if text_is(value, "rgb32") {
            Some(FrameSubtype::Rgb32)
        } else if text_is(value, "nv12") {
            Some(FrameSubtype::Nv12)
        } else {
            None
        }
    }

    pub fn label(self) -> (l: &'static str)
        ensures
            l@ == spec_subtype_label(self),
    {
        match self {
            FrameSubtype::Rgb32 => "rgb32",
            FrameSubtype::Nv12 => "nv12",
        }
    }
}

/// Options of the dump command.
pub struct DumpComFrameOptions {
    pub path: String,
    pub subtype: FrameSubtype,
}

pub open spec fn starts_with_dashes(s: Seq<char>) -> bool {
    s.len() >= 2 && s[0] == '-' && s[1] == '-'
}

/// `--subtype rgb32|nv12` and at most one output path, in any order; the
/// subtype defaults to RGB32.
pub open spec fn spec_parse_dump(
    args: Seq<Seq<char>>,
    i: int,
    path: Option<Seq<char>>,
    subtype: FrameSubtype,
) -> Result<(Option<Seq<char>>, FrameSubtype), CliError>
    decreases args.len() - i,
{
    if i >= args.len() || i < 0 {
        Ok((path, subtype))
    } else if args[i] == "--subtype"@ {
        if i + 1 >= args.len() {
            Err(CliError::MissingValue(CliOption::Subtype))
        } else {
            match spec_parse_subtype(args[i + 1]) {
                None => Err(CliError::InvalidSubtype { index: (i + 1) as usize }),
                Some(s) => spec_parse_dump(args, i + 2, path, s),
            }
        }
    } else if starts_with_dashes(args[i]) {
        Err(CliError::UnknownOption { index: i as usize })
    } else if path is Some {
        Err(CliError::TooManyPaths)
    } else {
        spec_parse_dump(args, i + 1, Some(args[i]), subtype)
    }
}

pub open spec fn default_dump_name(s: FrameSubtype) -> Seq<char> {
    match s {
        FrameSubtype::Rgb32 => "com-frame-rgb32.bmp"@,
        FrameSubtype::Nv12 => "com-frame-nv12.bmp"@,
    }
}

fn starts_with_two_dashes(text: &str) -> (b: bool)
    ensures
        b == starts_with_dashes(text@),
{
    let n = text.unicode_len();
    n >= 2 && text.get_char(0) == '-' && text.get_char(1) == '-'
}

pub fn parse_dump_com_frame_options(args: &Vec<String>) -> (r: Result<DumpComFrameOptions, CliError>)
    ensures
        match spec_parse_dump(view_args(args@), 0, None, FrameSubtype::Rgb32) {
            Ok((path, subtype)) => r matches Ok(o) && o.subtype == subtype && o.path@ == match path {
                Some(p) => p,
                None => default_dump_name(subtype),
            },
            Err(e) => r matches Err(e2) && e2 == e,
        },
{
    let ghost va = view_args(args@);
    let mut path: Option<String> = None;
    let mut subtype = FrameSubtype::Rgb32;
    let mut index: usize = 0;
    while index < args.len()
        invariant
            va == view_args(args@),
            index <= args@.len(),
            spec_parse_dump(va, index as int, opt_view(path), subtype)
                == spec_parse_dump(va, 0, None, FrameSubtype::Rgb32),
        decreases args@.len() - index,
    {
        let arg = args[index].as_str();
        assert(va[index as int] == arg@);
        if text_is(arg, "--subtype") {
            if index + 1 >= args.len() {
                return Err(CliError::MissingValue(CliOption::Subtype));
            }
            let value = args[index + 1].as_str();
            assert(va[index + 1] == value@);
            match FrameSubtype::parse(value) {
                None => { return Err(CliError::InvalidSubtype { index: index + 1 }); },
                Some(s) => { subtype = s; },
            }
            index = index + 2;
        } else if starts_with_two_dashes(arg) {
            return Err(CliError::UnknownOption { index });
        } else {
            if path.is_some() {
                return Err(CliError::TooManyPaths);
            }
            path = Some(String::from_str(arg));
            index = index + 1;
        }
    }
    let path = match path {
        Some(p) => p,
        None => match subtype {
            FrameSubtype::Rgb32 => String::from_str("com-frame-rgb32.bmp"),
            FrameSubtype::Nv12 => String::from_str("com-frame-nv12.bmp"),
        },
    };
    Ok(DumpComFrameOptions { path, subtype })
}

pub open spec fn is_digit(c: char) -> bool {
    '0' <= c <= '9'
}

/// The decimal value of `digits[i..]` read after `acc`, with the first
/// problem in reading order reported.
pub open spec fn spec_digits_value(digits: Seq<char>, i: int, acc: int) -> Result<u32, NumberError>
    decreases digits.len() - i,
{
    if i >= digits.len() || i < 0 {
        Ok(acc as u32)
    } else if !is_digit(digits[i]) {
        Err(NumberError::InvalidDigit)
    } else if acc * 10 + (digits[i] as int - '0' as int) > u32::MAX {
        Err(NumberError::Overflow)
    } else {
        spec_digits_value(digits, i + 1, acc * 10 + (digits[i] as int - '0' as int))
    }
}

/// A 32-bit unsigned decimal number: an optional `+`, then at least one
/// digit.
pub open spec fn spec_parse_u32(s: Seq<char>) -> Result<u32, NumberError> {
    if s.len() == 0 {
        Err(NumberError::Empty)
    } else if s[0] == '+' {
        if s.len() == 1 { Err(NumberError::InvalidDigit) } else { spec_digits_value(s, 1, 0) }
    } else {
        spec_digits_value(s, 0, 0)
    }
}

/// Parses a 32-bit unsigned decimal number.
pub fn parse_u32_text(text: &str) -> (r: Result<u32, NumberError>)
    ensures
        r == spec_parse_u32(text@),
{
    let n = text.unicode_len();
    if n == 0 {
        return Err(NumberError::Empty);
    }
    let mut i: usize = 0;
    if text.get_char(0) == '+' {
        if n == 1 {
            return Err(NumberError::InvalidDigit);
        }
        i = 1;
    }
    let ghost start = i as int;
    let mut acc: u32 = 0;
    while i < n
        invariant
            n == text@.len(),
            start <= i <= n,
            spec_parse_u32(text@) == spec_digits_value(text@, start, 0),
            spec_digits_value(text@, i as int, acc as int) == spec_digits_value(text@, start, 0),
        decreases n - i,
    {
        let c = text.get_char(i);
        if c < '0' || c > '9' {
            return Err(NumberError::InvalidDigit);
        }
        let d = (c as u32) - ('0' as u32);
        if acc > 429_496_729 || (acc == 429_496_729 && d > 5) {
            return Err(NumberError::Overflow);
        }
        acc = acc * 10 + d;
        i = i + 1;
    }
    Ok(acc)
}

/// The number after an option, at `index`.
pub fn parse_u32_arg(args: &Vec<String>, index: usize, option: CliOption) -> (r: Result<u32, CliError>)
    ensures
        index >= args@.len() ==> r == Err::<u32, CliError>(CliError::MissingValue(option)),
        index < args@.len() ==> r == match spec_parse_u32(args@[index as int]@) {
            Ok(v) => Ok::<u32, CliError>(v),
            Err(e) => Err(CliError::InvalidNumber { option, index, error: e }),
        },
{
    if index >= args.len() {
        return Err(CliError::MissingValue(option));
    }
    match parse_u32_text(args[index].as_str()) {
        Ok(v) => Ok(v),
        Err(e) => Err(CliError::InvalidNumber { option, index, error: e }),
    }
}

/// Options of the animated feed demo.
#[derive(Clone, Copy, Debug, PartialEq, Eq, Structural)]
pub struct StreamOptions {
    pub width: u32,
    pub height: u32,
    pub fps: u32,
    pub duration_seconds: u32,
    pub force_reset: bool,
}

pub open spec fn default_stream_options() -> StreamOptions {
    StreamOptions {
        width: spec_default_format().width,
        height: spec_default_format().height,
        fps: spec_default_format().fps_num,
        duration_seconds: 10,
        force_reset: false,
    }
}

pub open spec fn spec_number_at(args: Seq<Seq<char>>, i: int, option: CliOption) -> Result<u32, CliError> {
    if i >= args.len() {
        Err(CliError::MissingValue(option))
    } else {
        match spec_parse_u32(args[i]) {
            Ok(v) => Ok(v),
            Err(e) => Err(CliError::InvalidNumber { option, index: i as usize, error: e }),
        }
    }
}

/// `--width`, `--height`, `--fps` and `--duration-seconds` with a number
/// each, and `--force-reset`, in any order, the last one winning.
pub open spec fn spec_parse_stream(args: Seq<Seq<char>>, i: int, o: StreamOptions) -> Result<StreamOptions, CliError>
    decreases args.len() - i,
{
    if i >= args.len() || i < 0 {
        Ok(o)
    } else if args[i] == "--width"@ {
        match spec_number_at(args, i + 1, CliOption::Width) {
            Err(e) => Err(e),
            Ok(v) => spec_parse_stream(args, i + 2, StreamOptions { width: v, ..o }),
        }
    } else if args[i] == "--height"@ {
        match spec_number_at(args, i + 1, CliOption::Height) {
            Err(e) => Err(e),
            Ok(v) => spec_parse_stream(args, i + 2, StreamOptions { height: v, ..o }),
        }
    } else if args[i] == "--fps"@ {
        match spec_number_at(args, i + 1, CliOption::Fps) {
            Err(e) => Err(e),
            Ok(v) => spec_parse_stream(args, i + 2, StreamOptions { fps: v, ..o }),
        }
    } else if args[i] == "--duration-seconds"@ {
        match spec_number_at(args, i + 1, CliOption::DurationSeconds) {
            Err(e) => Err(e),
            Ok(v) => spec_parse_stream(args, i + 2, StreamOptions { duration_seconds: v, ..o }),
        }
    } else if args[i] == "--force-reset"@ {
        spec_parse_stream(args, i + 1, StreamOptions { force_reset: true, ..o })
    } else {
        Err(CliError::UnknownOption { index: i as usize })
    }
}

pub fn parse_stream_options(args: &Vec<String>) -> (r: Result<StreamOptions, CliError>)
    ensures
        r == spec_parse_stream(view_args(args@), 0, default_stream_options()),
{
    let ghost va = view_args(args@);
    let defaults = VideoFormat::default();
    let mut options = StreamOptions {
        width: defaults.width,
        height: defaults.height,
        fps: defaults.fps_num,
        duration_seconds: 10,
        force_reset: false,
    };
    let mut index: usize = 0;
    while index < args.len()
        invariant
            va == view_args(args@),
            index <= args@.len(),
            spec_parse_stream(va, index as int, options) == spec_parse_stream(va, 0, default_stream_options()),
        decreases args@.len() - index,
    {
        let arg = args[index].as_str();
        assert(va[index as int] == arg@);
        if index + 1 < args.len() {
            assert(va[index + 1] == args@[index + 1]@);
        }
        if text_is(arg, "--width") {
            options.width = parse_u32_arg(args, index + 1, CliOption::Width)?;
            index = index + 2;
        } else if text_is(arg, "--height") {
            options.height = parse_u32_arg(args, index + 1, CliOption::Height)?;
            index = index + 2;
        } else if text_is(arg, "--fps") {
            options.fps = parse_u32_arg(args, index + 1, CliOption::Fps)?;
            index = index + 2;
        } else if text_is(arg, "--duration-seconds") {
            options.duration_seconds = parse_u32_arg(args, index + 1, CliOption::DurationSeconds)?;
            index = index + 2;
        } else if text_is(arg, "--force-reset") {
            options.force_reset = true;
            index = index + 1;
        } else {
            return Err(CliError::UnknownOption { index });
        }
    }
    Ok(options)
}

/// How two frames differ.
#[derive(Clone, Copy, Debug, PartialEq, Eq, Structural)]
pub enum Mismatch {
    /// The frames have different lengths.
    Length { expected_len: usize, actual_len: usize },
    /// The first byte that differs.
    Byte { offset: usize, expected_byte: u8, actual_byte: u8 },
    /// The frames are equal.
    Equal,
}

/// `k` is the first offset at which two frames of one length differ.
pub open spec fn first_difference_at(expected: Seq<u8>, actual: Seq<u8>, k: int) -> bool {
    &&& 0 <= k < expected.len()
    &&& expected[k] != actual[k]
    &&& forall|j: int| 0 <= j < k ==> expected[j] == actual[j]
}

/// The first difference between two frames.
pub open spec fn spec_first_mismatch(expected: Seq<u8>, actual: Seq<u8>) -> Mismatch {
    if expected.len() != actual.len() {
        Mismatch::Length { expected_len: expected.len() as usize, actual_len: actual.len() as usize }
    } else if exists|k: int| first_difference_at(expected, actual, k) {
        let k = choose|k: int| first_difference_at(expected, actual, k);
        Mismatch::Byte { offset: k as usize, expected_byte: expected[k], actual_byte: actual[k] }
    } else {
        Mismatch::Equal
    }
}

proof fn lemma_first_difference_unique(expected: Seq<u8>, actual: Seq<u8>, i: int, k: int)
    requires
        first_difference_at(expected, actual, i),
        first_difference_at(expected, actual, k),
    ensures
        i == k,
{
    if i < k {
        assert(expected[i] == actual[i]);
    } else if k < i {
        assert(expected[k] == actual[k]);
    }
}

/// The first difference between `expected` and `actual`.
pub fn first_mismatch(expected: &[u8], actual: &[u8]) -> (m: Mismatch)
    ensures
        m == spec_first_mismatch(expected@, actual@),
        m == Mismatch::Equal <==> expected@ == actual@,
{
    if expected.len() != actual.len() {
        return Mismatch::Length { expected_len: expected.len(), actual_len: actual.len() };
    }
    let mut i: usize = 0;
    while i < expected.len()
        invariant
            expected@.len() == actual@.len(),
            i <= expected@.len(),
            forall|k: int| 0 <= k < i ==> expected@[k] == actual@[k],
        decreases expected@.len() - i,
    {
        if expected[i] != actual[i] {
            proof {
                assert(first_difference_at(expected@, actual@, i as int));
                let k = choose|k: int| first_difference_at(expected@, actual@, k);
                lemma_first_difference_unique(expected@, actual@, i as int, k);
            }
            return Mismatch::Byte { offset: i, expected_byte: expected[i], actual_byte: actual[i] };
        }
        i = i + 1;
    }
    assert(expected@ =~= actual@);
    assert(!exists|k: int| first_difference_at(expected@, actual@, k));
    Mismatch::Equal
}

/// The message that reports a mismatch.
pub open spec fn spec_mismatch_message(m: Mismatch) -> Seq<char> {
    match m {
        Mismatch::Length { expected_len, actual_len } => "expected "@ + spec_decimal_text(expected_len as nat)
            + " bytes, got "@ + spec_decimal_text(actual_len as nat) + " bytes"@,
        Mismatch::Byte { offset, expected_byte, actual_byte } => "first differing byte at offset "@
            + spec_decimal_text(offset as nat) + ": expected "@ + spec_decimal_text(expected_byte as nat)
            + ", got "@ + spec_decimal_text(actual_byte as nat),
        Mismatch::Equal => "unknown content mismatch"@,
    }
}

impl Mismatch {
    /// The message that reports this mismatch.
    pub fn message(self) -> (s: String)
        ensures
            s@ == spec_mismatch_message(self),
    {
        match self {
            Mismatch::Length { expected_len, actual_len } => {
                let mut s = String::from_str("expected ");
                append_decimal(&mut s, expected_len as u64);
                s.append(" bytes, got ");
                append_decimal(&mut s, actual_len as u64);
                s.append(" bytes");
                s
            },
            Mismatch::Byte { offset, expected_byte, actual_byte } => {
                let mut s = String::from_str("first differing byte at offset ");
                append_decimal(&mut s, offset as u64);
                s.append(": expected ");
                append_decimal(&mut s, expected_byte as u64);
                s.append(", got ");
                append_decimal(&mut s, actual_byte as u64);
                s
            },
            Mismatch::Equal => String::from_str("unknown content mismatch"),
        }
    }
}

/// Describes how `actual` differs from `expected`: a length difference,
/// the first differing byte, or neither.
pub fn describe_mismatch(expected: &[u8], actual: &[u8]) -> (s: String)
    ensures
        s@ == spec_mismatch_message(spec_first_mismatch(expected@, actual@)),
{
    first_mismatch(expected, actual).message()
}

/// The message a failed frame check carries.
pub open spec fn spec_payload_error(expected: Seq<u8>, actual: Seq<u8>) -> Seq<char> {
    "COM sample payload mismatch: "@ + spec_mismatch_message(spec_first_mismatch(expected, actual))
}

/// A dumped frame must equal the expected frame byte for byte; otherwise
/// the error says how they differ.
pub fn verify_frame_payload(expected: &[u8], actual: &[u8]) -> (r: Result<(), String>)
    ensures
        r is Ok <==> expected@ == actual@,
        r matches Err(msg) ==> msg@ == spec_payload_error(expected@, actual@),
{
    let m = first_mismatch(expected, actual);
    match m {
        Mismatch::Equal => Ok(()),
        _ => {
            let mut msg = String::from_str("COM sample payload mismatch: ");
            let detail = m.message();
            msg.append(detail.as_str());
            Err(msg)
        },
    }
}

/// How an option is spelled on the command line.
pub open spec fn spec_option_name(o: CliOption) -> Seq<char> {
    match o {
        CliOption::Scope => "--scope"@,
        CliOption::DllPath => "--dll-path"@,
        CliOption::Subtype => "--subtype"@,
        CliOption::Width => "--width"@,
        CliOption::Height => "--height"@,
        CliOption::Fps => "--fps"@,
        CliOption::DurationSeconds => "--duration-seconds"@,
    }
}

impl CliOption {
    /// How this option is spelled on the command line.
    pub fn name(self) -> (s: &'static str)
        ensures
            s@ == spec_option_name(self),
    {
        match self {
            CliOption::Scope => "--scope",
            CliOption::DllPath => "--dll-path",
            CliOption::Subtype => "--subtype",
            CliOption::Width => "--width",
            CliOption::Height => "--height",
            CliOption::Fps => "--fps",
            CliOption::DurationSeconds => "--duration-seconds",
        }
    }
}

/// What a number that did not parse is reported as.
pub open spec fn spec_number_error_text(e: NumberError) -> Seq<char> {
    match e {
        NumberError::Empty => "cannot parse integer from empty string"@,
        NumberError::InvalidDigit => "invalid digit found in string"@,
        NumberError::Overflow => "number too large to fit in target type"@,
    }
}

impl NumberError {
    /// What this parse failure is reported as.
    pub fn text(self) -> (s: &'static str)
        ensures
            s@ == spec_number_error_text(self),
    {
        match self {
            NumberError::Empty => "cannot parse integer from empty string",
            NumberError::InvalidDigit => "invalid digit found in string",
            NumberError::Overflow => "number too large to fit in target type",
        }
    }
}

/// The text of argument `index`; nothing past the end of the list.
pub open spec fn arg_text(args: Seq<String>, index: usize) -> Seq<char> {
    if index < args.len() { args[index as int]@ } else { Seq::empty() }
}

/// The message a refused command line is reported with; `command` names
/// the command whose arguments `args` are.
pub open spec fn spec_cli_message(e: CliError, command: Seq<char>, args: Seq<String>) -> Seq<char> {
    match e {
        CliError::MissingValue(o) => "missing value for "@ + spec_option_name(o),
        CliError::UnknownOption { index } => "unknown option for "@ + command + ": "@ + arg_text(args, index),
        CliError::InvalidScope { index } => "invalid scope '"@ + arg_text(args, index)
            + "', expected 'user' or 'machine'"@,
        CliError::InvalidSubtype { index } => "invalid subtype '"@ + arg_text(args, index)
            + "', expected 'rgb32' or 'nv12'"@,
        CliError::TooManyPaths => "dump-com-frame accepts at most one output path"@,
        CliError::InvalidNumber { option, error, .. } => "invalid value for "@ + spec_option_name(option) + ": "@
            + spec_number_error_text(error),
    }
}

fn append_arg(text: &mut String, args: &[String], index: usize)
    ensures
        final(text)@ == old(text)@ + arg_text(args@, index),
{
    if index < args.len() {
        text.append(args[index].as_str());
    } else {
        assert(text@ =~= text@ + Seq::<char>::empty());
    }
}

impl CliError {
    /// The message this refusal is reported with; `command` names the
    /// command whose arguments `args` are.
    pub fn message(self, command: &str, args: &[String]) -> (s: String)
        ensures
            s@ == spec_cli_message(self, command@, args@),
    {
        match self {
            CliError::MissingValue(o) => {
                let mut s = String::from_str("missing value for ");
                s.append(o.name());
                s
            },
            CliError::UnknownOption { index } => {
                let mut s = String::from_str("unknown option for ");
                s.append(command);
                s.append(": ");
                append_arg(&mut s, args, index);
                s
            },
            CliError::InvalidScope { index } => {
                let mut s = String::from_str("invalid scope '");
                append_arg(&mut s, args, index);
                s.append("', expected 'user' or 'machine'");
                s
            },
            CliError::InvalidSubtype { index } => {
                let mut s = String::from_str("invalid subtype '");
                append_arg(&mut s, args, index);
                s.append("', expected 'rgb32' or 'nv12'");
                s
            },
            CliError::TooManyPaths => String::from_str("dump-com-frame accepts at most one output path"),
            CliError::InvalidNumber { option, error, .. } => {
                let mut s = String::from_str("invalid value for ");
                s.append(option.name());
                s.append(": ");
                s.append(error.text());
                s
            },
        }
    }
}

} // verus!
