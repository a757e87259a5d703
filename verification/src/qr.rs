use crate::bit_image::ModuleColor;
use crate::text::{payment_url, payment_url_text};
use crate::totp::{calculate_totp, totp_code};
use qrcode::render::Renderer;
use qrcode::types::QrError;
use qrcode::{Color, EcLevel, QrCode};
use vstd::prelude::*;
use vstd::string::StringSliceAdditionalSpecFns;
use vstd::utf8::encode_utf8;

verus! {

#[verifier::external_type_specification]
#[verifier::external_body]
pub struct ExQrError(QrError);

/// Error correction level of a QR symbol.
#[derive(Clone, Copy, Debug, PartialEq, Eq, Structural)]
pub enum ErrorCorrection {
    Low,
    Medium,
    Quartile,
    High,
}

/// The level the payment symbol is encoded with.
pub const PAYMENT_ERROR_CORRECTION: ErrorCorrection = ErrorCorrection::Low;

/// Character that dark modules are drawn with in the text rendering.
pub const TEXT_DARK_CHAR: char = '.';

/// Characters per module, across and down, in the text rendering.
pub const TEXT_MODULE_SIZE: u32 = 2;

/// The modules, row by row, of the smallest QR symbol that `qrcode` builds for
/// `data` at `level`, or `None` when it cannot encode the data.
pub uninterp spec fn qr_modules(data: Seq<u8>, level: ErrorCorrection) -> Option<Seq<ModuleColor>>;

/// Encodes with `qrcode::QrCode::with_error_correction_level` and reads the
/// symbol back with `width()` and `into_colors()`, each color converted to a
/// [`ModuleColor`]. The contract claims that the modules are the ones that
/// `qr_modules` names, and, as the crate's source shows (automatic encoding
/// picks a normal version from 1 to 40, whose side is 17 + 4 * version, and
/// the canvas holds side * side modules), that the side is between 21 and 177
/// and the modules fill the square. An `Err` exactly when `qr_modules` is
/// `None`.
#[verifier::external_body]
fn encode_symbol(data: &[u8], level: ErrorCorrection) -> (symbol: Result<(usize, Vec<ModuleColor>), QrError>)
    ensures
        match symbol {
            Ok((width, modules)) => {
                &&& qr_modules(data@, level) == Some(modules@)
                &&& width * width == modules@.len()
                &&& 21 <= width <= 177
            },
            Err(_) => qr_modules(data@, level) is None,
        },
{
    let ec = match level {
        ErrorCorrection::Low => EcLevel::L,
        ErrorCorrection::Medium => EcLevel::M,
        ErrorCorrection::Quartile => EcLevel::Q,
        ErrorCorrection::High => EcLevel::H,
    };
    QrCode::with_error_correction_level(data, ec).map(|code| {
        let width = code.width();
        let modules = code.into_colors().into_iter().map(|c| match c {
            Color::Light => ModuleColor::Light,
            Color::Dark => ModuleColor::Dark,
        }).collect();
        (width, modules)
    })
}

/// Whether module `(mx, my)` of a rendering, counted with the quiet zone, is
/// a dark module of the symbol.
pub open spec fn rendered_module_dark(modules: Seq<ModuleColor>, width: nat, quiet_zone: nat, mx: int, my: int) -> bool {
    &&& quiet_zone <= mx < width + quiet_zone
    &&& quiet_zone <= my < width + quiet_zone
    &&& modules[(my - quiet_zone) * width + (mx - quiet_zone)] == ModuleColor::Dark
}

/// Character `k` of a text rendering: lines of `(width + 2 * quiet_zone) *
/// module_width` characters, one per pixel, separated by '\n'; each module
/// covers `module_width` by `module_height` characters; dark modules show
/// `dark`, everything else a space.
pub open spec fn rendered_char(
    modules: Seq<ModuleColor>,
    width: nat,
    dark: char,
    quiet_zone: nat,
    module_width: nat,
    module_height: nat,
    k: int,
) -> char {
    let line_len = ((width + 2 * quiet_zone) * module_width) as int;
    let col = k % (line_len + 1);
    let row = k / (line_len + 1);
    if col == line_len {
        '\n'
    } else if rendered_module_dark(modules, width, quiet_zone, col / module_width as int, row / module_height as int) {
        dark
    } else {
        ' '
    }
}

/// The whole text rendering: `(width + 2 * quiet_zone) * module_height` lines.
pub open spec fn rendered_text(
    modules: Seq<ModuleColor>,
    width: nat,
    dark: char,
    quiet_zone: nat,
    module_width: nat,
    module_height: nat,
) -> Seq<char> {
    let line_len = (width + 2 * quiet_zone) * module_width;
    let lines = (width + 2 * quiet_zone) * module_height;
    Seq::new(
        (lines * (line_len + 1) - 1) as nat,
        |k: int| rendered_char(modules, width, dark, quiet_zone, module_width, module_height, k),
    )
}

/// Renders with `qrcode::render::Renderer::<char>::new(colors, width,
/// quiet_zone)`, `dark_color(dark)`, `module_dimensions(module_width,
/// module_height)` and `build()`, the light color being the crate's default
/// space. The contract states the text that the crate's string canvas builds:
/// `rendered_text`. The bounds keep the renderer's `u32` and `isize` sizes
/// from overflowing and meet its assertion that the colors fill the square.
#[verifier::external_body]
fn render_text(
    width: usize,
    modules: &Vec<ModuleColor>,
    dark: char,
    quiet_zone: u32,
    module_width: u32,
    module_height: u32,
) -> (text: String)
    requires
        width * width == modules@.len(),
        1 <= width,
        1 <= module_width,
        1 <= module_height,
        (width + 2 * quiet_zone) * module_width <= 0xffff,
        (width + 2 * quiet_zone) * module_height <= 0xffff,
    ensures
        text@ == rendered_text(
            modules@,
            width as nat,
            dark,
            quiet_zone as nat,
            module_width as nat,
            module_height as nat,
        ),
{
    let colors: Vec<Color> = modules.iter().map(|m| match m {
        ModuleColor::Light => Color::Light,
        ModuleColor::Dark => Color::Dark,
    }).collect();
    Renderer::<char>::new(&colors, width, quiet_zone).dark_color(dark).module_dimensions(
        module_width,
        module_height,
    ).build()
}

/// An encoded QR symbol: its side in modules and its modules row by row.
pub struct QrMatrix {
    width: usize,
    modules: Vec<ModuleColor>,
}

impl QrMatrix {
    /// The modules fill a square whose side is that of a normal QR version.
    pub closed spec fn wf(&self) -> bool {
        &&& self.width * self.width == self.modules@.len()
        &&& 21 <= self.width <= 177
    }

    /// Side of the symbol, in modules.
    pub closed spec fn side(&self) -> nat {
        self.width as nat
    }

    /// Modules row by row.
    pub closed spec fn module_seq(&self) -> Seq<ModuleColor> {
        self.modules@
    }

    /// What well-formedness says of the shape: the modules fill a square
    /// whose side is between 21 and 177.
    pub proof fn lemma_shape(&self)
        requires
            self.wf(),
        ensures
            self.side() * self.side() == self.module_seq().len(),
            21 <= self.side() <= 177,
    {
    }

    /// Side of the symbol, in modules.
    pub fn width(&self) -> (w: usize)
        ensures
            w == self.side(),
    {
        self.width
    }

    /// The module in column `x` of row `y`.
    pub fn module(&self, x: usize, y: usize) -> (color: ModuleColor)
        requires
            self.wf(),
            x < self.side(),
            y < self.side(),
        ensures
            color == self.module_seq()[y * self.side() + x],
    {
        assert(y * self.width + x < self.width * self.width && self.width * self.width <= 177 * 177)
            by (nonlinear_arith)
            requires
                x < self.width,
                y < self.width,
                self.width <= 177,
        ;
        self.modules[y * self.width + x]
    }
}

/// The text rendering of a symbol as the terminal draws it: no quiet zone,
/// two characters per module across and down, dark modules as '.'.
pub open spec fn qr_text_of(m: QrMatrix) -> Seq<char> {
    rendered_text(m.module_seq(), m.side(), TEXT_DARK_CHAR, 0, TEXT_MODULE_SIZE as nat, TEXT_MODULE_SIZE as nat)
}

/// The symbol that the payment link of `totp` and `userid` is encoded as.
pub open spec fn payment_modules(totp: u32, userid: Seq<char>) -> Option<Seq<ModuleColor>> {
    qr_modules(encode_utf8(payment_url_text(totp, userid)), PAYMENT_ERROR_CORRECTION)
}

/// Turns what the encoder returned into a symbol, or into the error message
/// that the terminal reports when no symbol can be built.
pub fn symbol_from_encoding(encoded: Result<(usize, Vec<ModuleColor>), QrError>) -> (symbol: Result<
    QrMatrix,
    &'static str,
>)
    requires
        encoded matches Ok((w, m)) ==> w * w == m@.len() && 21 <= w <= 177,
    ensures
        match encoded {
            Ok((w, m)) => symbol matches Ok(s) && s.wf() && s.side() == w && s.module_seq() == m@,
            Err(_) => symbol matches Err(e) && e@ == "QR gen failed"@,
        },
{
    match encoded {
        Ok((width, modules)) => Ok(QrMatrix { width, modules }),
        Err(_) => Err("QR gen failed"),
    }
}

/// Encodes the payment link of `totp` and `userid` as a QR symbol with low
/// error correction.
pub fn make_qr(totp: u32, userid: &str) -> (symbol: Result<QrMatrix, &'static str>)
    ensures
        match symbol {
            Ok(m) => m.wf() && payment_modules(totp, userid@) == Some(m.module_seq()),
            Err(e) => e@ == "QR gen failed"@ && payment_modules(totp, userid@) is None,
        },
{
    let url = payment_url(totp, userid);
    let encoded = encode_symbol(url.as_str().as_bytes(), PAYMENT_ERROR_CORRECTION);
    symbol_from_encoding(encoded)
}

/// The text rendering of a symbol: no quiet zone, two characters per module
/// across and down, dark modules as '.', light ones as spaces.
pub fn render_qr_text(m: &QrMatrix) -> (text: String)
    requires
        m.wf(),
    ensures
        text@ == qr_text_of(*m),
{
    render_text(m.width, &m.modules, TEXT_DARK_CHAR, 0, TEXT_MODULE_SIZE, TEXT_MODULE_SIZE)
}

/// The payment symbol of `totp` and `userid`, rendered as text.
pub fn make_qr_str(totp: u32, userid: &str) -> (text: Result<String, &'static str>)
    ensures
        match text {
            Ok(s) => exists|m: QrMatrix|
                m.wf() && payment_modules(totp, userid@) == Some(m.module_seq()) && s@
                    == qr_text_of(m),
            Err(e) => e@ == "QR gen failed"@ && payment_modules(totp, userid@) is None,
        },
{
    let m = make_qr(totp, userid)?;
    let s = render_qr_text(&m);
    Ok(s)
}

/// The payment symbol for the code of `secret_hex` at the current time.
/// Fails with "Time went backwards" when the clock reads earlier than the
/// Unix epoch.
pub fn get_qr(secret_hex: &[u8; 32], userid: &str) -> (symbol: Result<QrMatrix, &'static str>)
    ensures
        symbol matches Ok(m) ==> m.wf() && exists|t: u64|
            payment_modules(totp_code(secret_hex@, t) as u32, userid@) == Some(m.module_seq()),
        symbol matches Err(e) ==> e@ == "Time went backwards"@ || (e@ == "QR gen failed"@
            && exists|t: u64| payment_modules(totp_code(secret_hex@, t) as u32, userid@) is None),
{
    match calculate_totp(secret_hex) {
        Some(totp) => make_qr(totp, userid),
        None => Err("Time went backwards"),
    }
}

/// The payment symbol for the code of `secret_hex` at the current time,
/// rendered as text.
pub fn get_qr_str(secret_hex: &[u8; 32], userid: &str) -> (text: Result<String, &'static str>)
    ensures
        text matches Ok(s) ==> exists|t: u64, m: QrMatrix|
            m.wf() && payment_modules(totp_code(secret_hex@, t) as u32, userid@) == Some(
                m.module_seq(),
            ) && s@ == qr_text_of(m),
        text matches Err(e) ==> e@ == "Time went backwards"@ || (e@ == "QR gen failed"@ && exists|
            t: u64,
        | payment_modules(totp_code(secret_hex@, t) as u32, userid@) is None),
{
    match calculate_totp(secret_hex) {
        Some(totp) => make_qr_str(totp, userid),
        None => Err("Time went backwards"),
    }
}

} // verus!
