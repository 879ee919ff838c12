//! What replies mean, and what errors are reported as.
use ruffle::gl::{
    check_error, judge, BufferTarget, ErrorSite, GlCommand, GlError, GlName, GlOp, GlReply,
    OnFailure, ResourceKind, TextureFormat, Uncreated, Verdict, NO_ERROR,
};

fn create(on_failure: OnFailure) -> GlCommand {
    GlCommand::Op(GlOp::Create {
        kind: ResourceKind::Framebuffer,
        name: GlName { id: 1 },
        on_failure,
    })
}

fn load() -> GlCommand {
    GlCommand::TexImage2d { format: TextureFormat::Rgb, width: 1, height: 1, pixels: None }
}

#[test]
fn objects_that_are_not_created_are_errors_or_panics() {
    let fails = create(OnFailure::Error(Uncreated::Framebuffer));
    let panics = create(OnFailure::Panic);
    assert!(matches!(
        judge(&fails, GlReply::NotCreated),
        Verdict::Fail(GlError::UnableToCreate(Uncreated::Framebuffer))
    ));
    assert!(matches!(judge(&panics, GlReply::NotCreated), Verdict::Panic));
    assert!(matches!(judge(&fails, GlReply::Done), Verdict::Proceed));
    assert!(matches!(judge(&panics, GlReply::Done), Verdict::Proceed));
}

#[test]
fn error_codes_count_where_they_were_asked_for() {
    let check = GlCommand::Op(GlOp::CheckError(ErrorSite::StencilStorage));
    assert!(matches!(judge(&check, GlReply::ErrorCode(NO_ERROR)), Verdict::Proceed));
    assert!(matches!(
        judge(&check, GlReply::ErrorCode(1_285)),
        Verdict::Fail(GlError::Gl { site: ErrorSite::StencilStorage, code: 1_285 })
    ));
    let draw = GlCommand::Op(GlOp::DrawElements { count: 3 });
    assert!(matches!(judge(&draw, GlReply::ErrorCode(1_285)), Verdict::Proceed));
    assert!(matches!(
        check_error(ErrorSite::ColorStorage, GlReply::ErrorCode(7)),
        Verdict::Fail(GlError::Gl { site: ErrorSite::ColorStorage, code: 7 })
    ));
    assert!(matches!(check_error(ErrorSite::ColorStorage, GlReply::Done), Verdict::Proceed));
}

#[test]
fn exceptions_count_where_textures_are_loaded() {
    let reply = GlReply::Exception("too large".to_string());
    match judge(&load(), reply) {
        Verdict::Fail(error) => assert_eq!(error.message(), "too large"),
        _ => panic!("a texture that cannot be loaded is an error"),
    }
    assert!(matches!(judge(&load(), GlReply::Done), Verdict::Proceed));
    let fill = GlCommand::BufferData { target: BufferTarget::Array, bytes: vec![1, 2] };
    let reply = GlReply::Exception("too large".to_string());
    assert!(matches!(judge(&fill, reply), Verdict::Proceed));
}

#[test]
fn errors_have_their_messages() {
    assert_eq!(GlError::ExpectedContext.message(), "Expected GL context");
    assert_eq!(GlError::NoContext.message(), "Unable to create WebGL rendering context");
    assert_eq!(GlError::NoVertexArrayExtension.message(), "VAO extension not found");
    let created = [
        (Uncreated::VertexArray, "Unable to create VAO"),
        (Uncreated::Texture, "Unable to create texture"),
        (Uncreated::Framebuffer, "Unable to create framebuffer"),
        (Uncreated::Renderbuffer, "Unable to create renderbuffer"),
        (Uncreated::Program, "Unable to create program"),
    ];
    for (uncreated, message) in created {
        assert_eq!(GlError::UnableToCreate(uncreated).message(), message);
    }
    assert_eq!(GlError::Exception("it broke".to_string()).message(), "it broke");
}

#[test]
fn error_codes_are_reported_in_decimal() {
    let color = GlError::Gl { site: ErrorSite::ColorStorage, code: 1_281 };
    assert_eq!(
        color.message(),
        "WebGL: Error in renderbuffer_storage_multisample (color): 1281"
    );
    let stencil = GlError::Gl { site: ErrorSite::StencilStorage, code: 4_294_967_295 };
    assert_eq!(
        stencil.message(),
        "WebGL: Error in renderbuffer_storage_multisample (stencil): 4294967295"
    );
    for code in [1u32, 9, 10, 100, 909, 37_442, 1_000_000_000] {
        let error = GlError::Gl { site: ErrorSite::ColorStorage, code };
        assert!(error.message().ends_with(&format!(": {}", code)));
    }
}

#[test]
fn link_logs_are_reported_with_escapes() {
    let log = GlError::Link(Some("line \"1\"\nline 2".to_string()));
    assert_eq!(
        log.message(),
        "Error linking shader program: Some(\"line \\\"1\\\"\\nline 2\")"
    );
    assert_eq!(GlError::Link(None).message(), "Error linking shader program: None");
}
