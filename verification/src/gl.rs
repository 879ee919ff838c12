//! The calls that the renderer makes on the graphics library, and how it judges
//! what comes back from them.
//!
//! The renderer decides on calls and their arguments; a host makes them, one
//! after the other, and has each reply judged by [`judge`]. Objects of the
//! graphics library go by names that the host picks and files them under.
use vstd::prelude::*;

use crate::float::FloatBits;
use crate::geometry::{Matrix3, Matrix4, Vec4};

verus! {

/// The name that the host files an object of the graphics library under.
#[derive(Clone, Copy, PartialEq, Eq, Structural, Debug)]
pub struct GlName {
    pub id: u64,
}

/// Which interface vertex array objects are handled through.
#[derive(Clone, Copy, PartialEq, Eq, Structural, Debug)]
pub enum VertexArrayApi {
    WebGl2,
    /// In WebGL1, vertex array objects are only available as an extension.
    Extension,
}

#[derive(Clone, Copy, PartialEq, Eq, Structural, Debug)]
pub enum ShaderKind {
    Vertex,
    Fragment,
}

/// The source text of a shader.
#[derive(Clone, Copy, PartialEq, Eq, Structural, Debug)]
pub enum ShaderText {
    ColorVertex,
    ColorFragment,
    TextureVertex,
    GradientFragment,
    BitmapFragment,
}

#[derive(Clone, Copy, PartialEq, Eq, Structural, Debug)]
pub enum ResourceKind {
    Buffer,
    VertexArray(VertexArrayApi),
    Texture,
    Framebuffer,
    Renderbuffer,
    Shader(ShaderKind),
    Program,
}

/// Objects whose creation may fail with an error.
#[derive(Clone, Copy, PartialEq, Eq, Structural, Debug)]
pub enum Uncreated {
    VertexArray,
    Texture,
    Framebuffer,
    Renderbuffer,
    Program,
}

/// What follows where an object cannot be created.
#[derive(Clone, Copy, PartialEq, Eq, Structural, Debug)]
pub enum OnFailure {
    Error(Uncreated),
    Panic,
}

#[derive(Clone, Copy, PartialEq, Eq, Structural, Debug)]
pub enum BufferTarget {
    Array,
    ElementArray,
}

#[derive(Clone, Copy, PartialEq, Eq, Structural, Debug)]
pub enum AttributeType {
    Float,
    UnsignedByte,
}

#[derive(Clone, Copy, PartialEq, Eq, Structural, Debug)]
pub enum FramebufferTarget {
    Framebuffer,
    ReadFramebuffer,
    DrawFramebuffer,
}

#[derive(Clone, Copy, PartialEq, Eq, Structural, Debug)]
pub enum Attachment {
    Color0,
    Stencil,
}

#[derive(Clone, Copy, PartialEq, Eq, Structural, Debug)]
pub enum RenderbufferFormat {
    Rgb8,
    StencilIndex8,
}

#[derive(Clone, Copy, PartialEq, Eq, Structural, Debug)]
pub enum TextureFormat {
    Rgb,
    Rgba,
}

#[derive(Clone, Copy, PartialEq, Eq, Structural, Debug)]
pub enum TextureParameter {
    MagFilter,
    MinFilter,
    WrapS,
    WrapT,
}

#[derive(Clone, Copy, PartialEq, Eq, Structural, Debug)]
pub enum TextureSetting {
    Nearest,
    Linear,
    ClampToEdge,
    MirroredRepeat,
}

#[derive(Clone, Copy, PartialEq, Eq, Structural, Debug)]
pub enum Capability {
    Blend,
    StencilTest,
    ScissorTest,
}

#[derive(Clone, Copy, PartialEq, Eq, Structural, Debug)]
pub enum BlendFactor {
    One,
    SrcAlpha,
    OneMinusSrcAlpha,
}

#[derive(Clone, Copy, PartialEq, Eq, Structural, Debug)]
pub enum StencilAction {
    Keep,
    Incr,
    Decr,
}

/// A place where the renderer asks for the error of the previous calls.
#[derive(Clone, Copy, PartialEq, Eq, Structural, Debug)]
pub enum ErrorSite {
    ColorStorage,
    StencilStorage,
}

/// A call that carries no data of variable length.
#[derive(Clone, Copy, PartialEq, Eq, Structural, Debug)]
pub enum GlOp {
    Create { kind: ResourceKind, name: GlName, on_failure: OnFailure },
    DeleteFramebuffer(GlName),
    DeleteRenderbuffer(GlName),
    DeleteTexture(GlName),
    BindBuffer(BufferTarget, GlName),
    BindVertexArray(VertexArrayApi, Option<GlName>),
    BindFramebuffer(FramebufferTarget, Option<GlName>),
    BindRenderbuffer(Option<GlName>),
    BindTexture(Option<GlName>),
    /// Makes texture unit 0 the active one.
    ActiveTexture0,
    VertexAttribPointer {
        location: u32,
        size: i32,
        data_type: AttributeType,
        normalized: bool,
        stride: i32,
        offset: i32,
    },
    EnableVertexAttribArray(u32),
    DisableVertexAttribArray(u32),
    ShaderSource(GlName, ShaderText),
    CompileShader(GlName),
    AttachShader { program: GlName, shader: GlName },
    LinkProgram(GlName),
    UseProgram(GlName),
    RenderbufferStorageMultisample {
        samples: i32,
        format: RenderbufferFormat,
        width: i32,
        height: i32,
    },
    FramebufferRenderbuffer(Attachment, GlName),
    /// Attaches a texture to the framebuffer, for colors.
    FramebufferTexture2d(GlName),
    TexParameter(TextureParameter, TextureSetting),
    /// Asks for the error of the previous calls.
    CheckError(ErrorSite),
    Enable(Capability),
    Disable(Capability),
    BlendFunc(BlendFactor, BlendFactor),
    /// Sets the alignment of the rows of textures that are loaded.
    UnpackAlignment(i32),
    ColorMask(bool),
    /// Lets pixels through whose stencil value, masked, equals the reference.
    StencilFuncEqual { reference: i32, mask: u32 },
    /// What becomes of the stencil value where the stencil test fails, where the
    /// depth test fails, and where neither does.
    StencilOp(StencilAction, StencilAction, StencilAction),
    StencilMask(u32),
    ClearColor(Vec4),
    Clear { color: bool, stencil: bool },
    Viewport { x: i32, y: i32, width: i32, height: i32 },
    Scissor { x: i32, y: i32, width: i32, height: i32 },
    /// Copies the colors of the lower left `width` times `height` pixels from
    /// one framebuffer to the other.
    BlitColors { width: i32, height: i32 },
    Uniform1i(Option<GlName>, i32),
    Uniform1f(Option<GlName>, FloatBits),
    Uniform4f(Option<GlName>, Vec4),
    UniformMatrix3(Option<GlName>, Matrix3),
    UniformMatrix4(Option<GlName>, Matrix4),
    /// Draws triangles from 16-bit indices, from the first on.
    DrawElements { count: i32 },
}

/// A call.
#[derive(Debug)]
pub enum GlCommand {
    Op(GlOp),
    BufferData { target: BufferTarget, bytes: Vec<u8> },
    TexImage2d { format: TextureFormat, width: i32, height: i32, pixels: Option<Vec<u8>> },
    Uniform1fv { location: Option<GlName>, values: Vec<FloatBits> },
    Uniform4fv { location: Option<GlName>, values: Vec<FloatBits> },
}

/// A call, with its data as sequences.
pub enum GlCall {
    Op(GlOp),
    BufferData { target: BufferTarget, bytes: Seq<u8> },
    TexImage2d { format: TextureFormat, width: i32, height: i32, pixels: Option<Seq<u8>> },
    Uniform1fv { location: Option<GlName>, values: Seq<FloatBits> },
    Uniform4fv { location: Option<GlName>, values: Seq<FloatBits> },
}

impl View for GlCommand {
    type V = GlCall;

    open spec fn view(&self) -> GlCall {
        match *self {
            GlCommand::Op(op) => GlCall::Op(op),
            GlCommand::BufferData { target, bytes } => GlCall::BufferData { target, bytes: bytes@ },
            GlCommand::TexImage2d { format, width, height, pixels } => GlCall::TexImage2d {
                format,
                width,
                height,
                pixels: match pixels {
                    Some(pixels) => Some(pixels@),
                    None => None,
                },
            },
            GlCommand::Uniform1fv { location, values } => GlCall::Uniform1fv {
                location,
                values: values@,
            },
            GlCommand::Uniform4fv { location, values } => GlCall::Uniform4fv {
                location,
                values: values@,
            },
        }
    }
}

/// The calls that commands stand for, in order.
pub open spec fn calls(commands: Seq<GlCommand>) -> Seq<GlCall> {
    commands.map_values(|command: GlCommand| command@)
}

/// The calls that carry no data of variable length, in order.
pub open spec fn ops(ops: Seq<GlOp>) -> Seq<GlCall> {
    ops.map_values(|op: GlOp| GlCall::Op(op))
}

/// Adds a call.
pub fn emit(commands: &mut Vec<GlCommand>, command: GlCommand)
    ensures
        calls(final(commands)@) == calls(old(commands)@).push(command@),
{
    commands.push(command);
    assert(calls(commands@) =~= calls(old(commands)@).push(command@));
}

/// Adds a call that carries no data of variable length.
pub fn emit_op(commands: &mut Vec<GlCommand>, op: GlOp)
    ensures
        calls(final(commands)@) == calls(old(commands)@).push(GlCall::Op(op)),
{
    emit(commands, GlCommand::Op(op));
}

/// No calls.
pub fn no_commands() -> (commands: Vec<GlCommand>)
    ensures
        calls(commands@) == Seq::<GlCall>::empty(),
{
    let commands: Vec<GlCommand> = Vec::new();
    assert(calls(commands@) =~= Seq::<GlCall>::empty());
    commands
}

/// What came back from a call.
#[derive(Debug)]
pub enum GlReply {
    /// Nothing that matters.
    Done,
    /// The object was not created.
    NotCreated,
    /// The error that was asked for.
    ErrorCode(u32),
    /// The call threw an exception, with this text.
    Exception(String),
}

/// The error code that stands for no error.
pub const NO_ERROR: u32 = 0;

/// Why the renderer cannot go on.
#[derive(Debug)]
pub enum GlError {
    /// The canvas handed out something else than a rendering context.
    ExpectedContext,
    /// The canvas hands out no rendering context.
    NoContext,
    NoVertexArrayExtension,
    UnableToCreate(Uncreated),
    /// Linking a shader program failed; with the log, if there is one.
    Link(Option<String>),
    Gl { site: ErrorSite, code: u32 },
    Exception(String),
}

/// How to go on after a reply.
#[derive(Debug)]
pub enum Verdict {
    Proceed,
    Fail(GlError),
    Panic,
}

/// What the reply to a call means.
///
/// - An object that was not created is the error or the panic that the call
///   provides for.
/// - An error code other than `NO_ERROR` is an error, where it was asked for.
/// - An exception while a texture is loaded is an error.
/// - Any other reply lets the renderer go on.
pub open spec fn verdict(command: GlCommand, reply: GlReply) -> Verdict {
    match (command, reply) {
        (
            GlCommand::Op(GlOp::Create { on_failure, .. }),
            GlReply::NotCreated,
        ) => match on_failure {
            OnFailure::Error(uncreated) => Verdict::Fail(GlError::UnableToCreate(uncreated)),
            OnFailure::Panic => Verdict::Panic,
        },
        (GlCommand::Op(GlOp::CheckError(site)), GlReply::ErrorCode(code)) => if code == NO_ERROR {
            Verdict::Proceed
        } else {
            Verdict::Fail(GlError::Gl { site, code })
        },
        (GlCommand::TexImage2d { .. }, GlReply::Exception(text)) => Verdict::Fail(
            GlError::Exception(text),
        ),
        _ => Verdict::Proceed,
    }
}

/// Judges the reply to a call.
pub fn judge(command: &GlCommand, reply: GlReply) -> (result: Verdict)
    ensures
        result == verdict(*command, reply),
{
    match command {
        GlCommand::Op(GlOp::Create { on_failure, .. }) => match reply {
            GlReply::NotCreated => match on_failure {
                OnFailure::Error(uncreated) => Verdict::Fail(GlError::UnableToCreate(*uncreated)),
                OnFailure::Panic => Verdict::Panic,
            },
            _ => Verdict::Proceed,
        },
        GlCommand::Op(GlOp::CheckError(site)) => check_error(*site, reply),
        GlCommand::TexImage2d { .. } => match reply {
            GlReply::Exception(text) => Verdict::Fail(GlError::Exception(text)),
            _ => Verdict::Proceed,
        },
        _ => Verdict::Proceed,
    }
}

/// Check if the graphics library returned an error for the previous operation.
pub fn check_error(site: ErrorSite, reply: GlReply) -> (result: Verdict)
    ensures
        result == verdict(GlCommand::Op(GlOp::CheckError(site)), reply),
{
    match reply {
        GlReply::ErrorCode(code) => {
            if code == NO_ERROR {
                Verdict::Proceed
            } else {
                Verdict::Fail(GlError::Gl { site, code })
            }
        },
        _ => Verdict::Proceed,
    }
}

/// The decimal digit `digit`.
pub open spec fn digit_text(digit: nat) -> Seq<char> {
    if digit == 0 {
        seq!['0']
    } else if digit == 1 {
        seq!['1']
    } else if digit == 2 {
        seq!['2']
    } else if digit == 3 {
        seq!['3']
    } else if digit == 4 {
        seq!['4']
    } else if digit == 5 {
        seq!['5']
    } else if digit == 6 {
        seq!['6']
    } else if digit == 7 {
        seq!['7']
    } else if digit == 8 {
        seq!['8']
    } else {
        seq!['9']
    }
}

/// A number in decimal, without leading zeros.
pub open spec fn decimal(n: nat) -> Seq<char>
    decreases n,
{
    if n < 10 {
        digit_text(n)
    } else {
        decimal(n / 10) + digit_text(n % 10)
    }
}

/// Adds a number in decimal to a text.
fn append_decimal(text: &mut String, n: u32)
    ensures
        final(text)@ == old(text)@ + decimal(n as nat),
    decreases n,
{
    if n >= 10 {
        append_decimal(text, n / 10);
    }
    let ghost start = text@;
    let digit: u32 = n % 10;
    proof {
        reveal_strlit("0");
        reveal_strlit("1");
        reveal_strlit("2");
        reveal_strlit("3");
        reveal_strlit("4");
        reveal_strlit("5");
        reveal_strlit("6");
        reveal_strlit("7");
        reveal_strlit("8");
        reveal_strlit("9");
    }
    let digit: &str = match digit {
        0 => "0",
        1 => "1",
        2 => "2",
        3 => "3",
        4 => "4",
        5 => "5",
        6 => "6",
        7 => "7",
        8 => "8",
        _ => "9",
    };
    assert(digit@ =~= digit_text(n as nat % 10));
    text.append(digit);
    assert(text@ =~= old(text)@ + decimal(n as nat));
}

/// The debugging text of an optional string.
pub uninterp spec fn debug_text(log: Option<Seq<char>>) -> Seq<char>;

/// `format!` with `{:?}`, applied to an optional string. What characters it
/// writes as escapes is left to the standard library.
#[verifier::external_body]
fn format_debug(log: &Option<String>) -> (text: String)
    ensures
        text@ == debug_text(optional_text(*log)),
{
    format!("{:?}", log)
}

/// An optional string as an optional sequence of characters.
pub open spec fn optional_text(log: Option<String>) -> Option<Seq<char>> {
    match log {
        Some(log) => Some(log@),
        None => None,
    }
}

impl ErrorSite {
    /// What the error is reported as an error in.
    pub open spec fn text(self) -> Seq<char> {
        match self {
            ErrorSite::ColorStorage => "renderbuffer_storage_multisample (color)"@,
            ErrorSite::StencilStorage => "renderbuffer_storage_multisample (stencil)"@,
        }
    }
}

impl GlError {
    /// What the error is reported as.
    pub open spec fn text(self) -> Seq<char> {
        match self {
            GlError::ExpectedContext => "Expected GL context"@,
            GlError::NoContext => "Unable to create WebGL rendering context"@,
            GlError::NoVertexArrayExtension => "VAO extension not found"@,
            GlError::UnableToCreate(Uncreated::VertexArray) => "Unable to create VAO"@,
            GlError::UnableToCreate(Uncreated::Texture) => "Unable to create texture"@,
            GlError::UnableToCreate(Uncreated::Framebuffer) => "Unable to create framebuffer"@,
            GlError::UnableToCreate(Uncreated::Renderbuffer) => "Unable to create renderbuffer"@,
            GlError::UnableToCreate(Uncreated::Program) => "Unable to create program"@,
            GlError::Link(log) => "Error linking shader program: "@ + debug_text(
                optional_text(log),
            ),
            GlError::Gl { site, code } => "WebGL: Error in "@ + site.text() + ": "@ + decimal(
                code as nat,
            ),
            GlError::Exception(text) => text@,
        }
    }

    /// What the error is reported as.
    pub fn message(&self) -> (message: String)
        ensures
            message@ == self.text(),
    {
        match self {
            GlError::ExpectedContext => "Expected GL context".to_owned(),
            GlError::NoContext => "Unable to create WebGL rendering context".to_owned(),
            GlError::NoVertexArrayExtension => "VAO extension not found".to_owned(),
            GlError::UnableToCreate(uncreated) => match uncreated {
                Uncreated::VertexArray => "Unable to create VAO".to_owned(),
                Uncreated::Texture => "Unable to create texture".to_owned(),
                Uncreated::Framebuffer => "Unable to create framebuffer".to_owned(),
                Uncreated::Renderbuffer => "Unable to create renderbuffer".to_owned(),
                Uncreated::Program => "Unable to create program".to_owned(),
            },
            GlError::Link(log) => {
                let mut message = "Error linking shader program: ".to_owned();
                message.append(format_debug(log).as_str());
                message
            },
            GlError::Gl { site, code } => {
                let mut message = "WebGL: Error in ".to_owned();
                let site = match site {
                    ErrorSite::ColorStorage => "renderbuffer_storage_multisample (color)",
                    ErrorSite::StencilStorage => "renderbuffer_storage_multisample (stencil)",
                };
                message.append(site);
                message.append(": ");
                append_decimal(&mut message, *code);
                message
            },
            GlError::Exception(text) => text.clone(),
        }
    }
}

/// What comes of a reply, and of which: a panic, or an error, where an object was
/// not created, as its creation provides for, whatever object it is; an error
/// where one was asked for and there was one; and an error where loading a
/// texture threw an exception. Nothing else stops the renderer.
pub proof fn law_verdicts(
    command: GlCommand,
    reply: GlReply,
    uncreated: Uncreated,
    site: ErrorSite,
    code: u32,
    text: String,
)
    ensures
        verdict(command, reply) is Panic <==> {
            &&& reply is NotCreated
            &&& command matches GlCommand::Op(GlOp::Create { on_failure: OnFailure::Panic, .. })
        },
        verdict(command, reply) == Verdict::Fail(GlError::UnableToCreate(uncreated)) <==> {
            &&& reply is NotCreated
            &&& command matches GlCommand::Op(GlOp::Create { on_failure, .. })
            &&& on_failure == OnFailure::Error(uncreated)
        },
        verdict(command, reply) == Verdict::Fail(GlError::Gl { site, code }) <==> {
            &&& command == GlCommand::Op(GlOp::CheckError(site))
            &&& reply == GlReply::ErrorCode(code)
            &&& code != 0
        },
        verdict(command, reply) == Verdict::Fail(GlError::Exception(text)) <==> {
            &&& command is TexImage2d
            &&& reply == GlReply::Exception(text)
        },
        verdict(command, reply) matches Verdict::Fail(error) ==> {
            ||| error is UnableToCreate
            ||| error is Gl
            ||| error is Exception
        },
{
}

/// The value of a decimal digit.
pub open spec fn digit_value(digit: char) -> int {
    digit as int - '0' as int
}

/// The number that digits stand for in decimal.
pub open spec fn decimal_value(digits: Seq<char>) -> int
    decreases digits.len(),
{
    if digits.len() == 0 {
        0
    } else {
        10 * decimal_value(digits.drop_last()) + digit_value(digits.last())
    }
}

/// A number in decimal consists of digits, reads back as the number, and has no
/// leading zeros.
pub proof fn law_decimal_reads_back(n: nat)
    ensures
        decimal(n).len() > 0,
        forall|i: int| 0 <= i < decimal(n).len() ==> '0' <= #[trigger] decimal(n)[i] <= '9',
        decimal_value(decimal(n)) == n,
        n > 0 ==> decimal(n)[0] != '0',
        n == 0 ==> decimal(n).len() == 1,
    decreases n,
{
    let digits = decimal(n);
    if n < 10 {
        assert(digits.drop_last() =~= Seq::<char>::empty());
        assert(decimal_value(digits.drop_last()) == 0);
    } else {
        law_decimal_reads_back(n / 10);
        assert(digits.drop_last() =~= decimal(n / 10));
        assert(digits.last() == digit_text(n % 10)[0]);
        assert(digits[0] == decimal(n / 10)[0]);
    }
}

/// What errors with something of their own are reported as: it is part of the
/// message.
pub proof fn law_messages(log: Option<String>, code: u32, text: String)
    ensures
        GlError::Exception(text).text() == text@,
        GlError::Link(log).text() == "Error linking shader program: "@ + debug_text(
            match log {
                Some(log) => Some(log@),
                None => None,
            },
        ),
        (GlError::Gl { site: ErrorSite::ColorStorage, code }).text() == "WebGL: Error in "@
            + "renderbuffer_storage_multisample (color)"@ + ": "@ + decimal(code as nat),
        (GlError::Gl { site: ErrorSite::StencilStorage, code }).text() == "WebGL: Error in "@
            + "renderbuffer_storage_multisample (stencil)"@ + ": "@ + decimal(code as nat),
{
}

/// Commands stand for calls one by one and in order, each with the arguments and
/// the data that it carries.
pub proof fn law_commands_stand_for_calls(commands: Seq<GlCommand>, some_ops: Seq<GlOp>, i: int)
    ensures
        calls(commands).len() == commands.len(),
        0 <= i < commands.len() ==> match commands[i] {
            GlCommand::Op(op) => calls(commands)[i] == GlCall::Op(op),
            GlCommand::BufferData { target, bytes } => {
                &&& calls(commands)[i] matches GlCall::BufferData { target: to, bytes: data }
                &&& to == target
                &&& data == bytes@
            },
            GlCommand::TexImage2d { format, width, height, pixels } => {
                &&& calls(commands)[i] matches GlCall::TexImage2d {
                    format: as_format,
                    width: columns,
                    height: rows,
                    pixels: data,
                }
                &&& as_format == format
                &&& columns == width
                &&& rows == height
                &&& match pixels {
                    Some(pixels) => data == Some(pixels@),
                    None => data is None,
                }
            },
            GlCommand::Uniform1fv { location, values } => {
                &&& calls(commands)[i] matches GlCall::Uniform1fv { location: at, values: numbers }
                &&& at == location
                &&& numbers == values@
            },
            GlCommand::Uniform4fv { location, values } => {
                &&& calls(commands)[i] matches GlCall::Uniform4fv { location: at, values: numbers }
                &&& at == location
                &&& numbers == values@
            },
        },
        ops(some_ops).len() == some_ops.len(),
        0 <= i < some_ops.len() ==> ops(some_ops)[i] == GlCall::Op(some_ops[i]),
{
}

} // verus!
