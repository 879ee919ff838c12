//! How a rendering context is obtained.
use ruffle::context::{
    context_options, context_request, msaa_sample_count, next_context_step, ContextChoice, ContextEvent,
    ContextReply, ContextStep,
};
use ruffle::gl::{GlError, VertexArrayApi};

#[test]
fn contexts_are_asked_for_with_options() {
    let mut options = Vec::new();
    for option in context_options(false) {
        options.push((option.name, option.value));
    }
    assert_eq!(
        options,
        vec![
            ("stencil", true),
            ("alpha", false),
            ("antialias", false),
            ("depth", false),
            ("failIfMajorPerformanceCaveat", true),
        ]
    );
    assert!(context_options(true)[2].value);
}

#[test]
fn samples_depend_on_the_device() {
    assert_eq!(msaa_sample_count(false, None), 4);
    assert_eq!(msaa_sample_count(true, None), 2);
    assert_eq!(msaa_sample_count(false, Some(16)), 4);
    assert_eq!(msaa_sample_count(false, Some(4)), 4);
    assert_eq!(msaa_sample_count(false, Some(3)), 3);
    assert_eq!(msaa_sample_count(true, Some(3)), 2);
    assert_eq!(msaa_sample_count(true, Some(1)), 1);
    assert_eq!(msaa_sample_count(false, Some(0)), 4);
}

#[test]
fn webgl2_comes_first() {
    assert!(matches!(next_context_step(ContextEvent::Start), ContextStep::RequestWebGl2));
    assert!(matches!(
        next_context_step(ContextEvent::WebGl2(ContextReply::Context)),
        ContextStep::RequestMaxSamples
    ));
    let step = next_context_step(ContextEvent::MaxSamples { max_samples: Some(2), mobile: false });
    match step {
        ContextStep::Ready(choice) => assert_eq!(
            choice,
            ContextChoice { api: VertexArrayApi::WebGl2, msaa_sample_count: 2 }
        ),
        _ => panic!("there is a context"),
    }
}

#[test]
fn webgl1_is_the_fallback() {
    assert!(matches!(
        next_context_step(ContextEvent::WebGl2(ContextReply::Unavailable)),
        ContextStep::RequestWebGl1
    ));
    assert!(matches!(
        next_context_step(ContextEvent::WebGl1(ContextReply::Context)),
        ContextStep::RequestVertexArrayExtension
    ));
    match next_context_step(ContextEvent::VertexArrayExtension(Ok(true))) {
        ContextStep::Ready(choice) => assert_eq!(
            choice,
            ContextChoice { api: VertexArrayApi::Extension, msaa_sample_count: 1 }
        ),
        _ => panic!("there is a context"),
    }
}

#[test]
fn contexts_fail_with_errors() {
    assert!(matches!(
        next_context_step(ContextEvent::WebGl2(ContextReply::SomethingElse)),
        ContextStep::Failed(GlError::ExpectedContext)
    ));
    assert!(matches!(
        next_context_step(ContextEvent::WebGl1(ContextReply::SomethingElse)),
        ContextStep::Failed(GlError::ExpectedContext)
    ));
    assert!(matches!(
        next_context_step(ContextEvent::WebGl1(ContextReply::Unavailable)),
        ContextStep::Failed(GlError::NoContext)
    ));
    assert!(matches!(
        next_context_step(ContextEvent::VertexArrayExtension(Ok(false))),
        ContextStep::Failed(GlError::NoVertexArrayExtension)
    ));
    let event = ContextEvent::VertexArrayExtension(Err("refused".to_string()));
    match next_context_step(event) {
        ContextStep::Failed(error) => assert_eq!(error.message(), "refused"),
        _ => panic!("an exception is an error"),
    }
}

#[test]
fn antialiasing_is_requested_on_webgl1_only() {
    let webgl2 = context_request(&ContextStep::RequestWebGl2).unwrap();
    assert_eq!(webgl2.context_id, "webgl2");
    assert_eq!(webgl2.options.len(), 5);
    assert_eq!((webgl2.options[2].name, webgl2.options[2].value), ("antialias", false));
    let webgl1 = context_request(&ContextStep::RequestWebGl1).unwrap();
    assert_eq!(webgl1.context_id, "webgl");
    assert_eq!((webgl1.options[2].name, webgl1.options[2].value), ("antialias", true));
    assert_eq!((webgl1.options[0].name, webgl1.options[0].value), ("stencil", true));
    assert!(context_request(&ContextStep::RequestMaxSamples).is_none());
    assert!(context_request(&ContextStep::RequestVertexArrayExtension).is_none());
    assert!(context_request(&ContextStep::Failed(GlError::NoContext)).is_none());
}
