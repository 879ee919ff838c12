//! How a rendering context is obtained from a canvas: which one is asked for,
//! with which options, and what is made of the answers.
use vstd::prelude::*;

use crate::gl::{GlError, VertexArrayApi};

verus! {

/// What a canvas answers when it is asked for a context.
#[derive(Clone, Copy, PartialEq, Eq, Structural, Debug)]
pub enum ContextReply {
    /// The kind of context that was asked for.
    Context,
    /// Something that is no such context.
    SomethingElse,
    /// Nothing, or an exception.
    Unavailable,
}

/// What is known of the context that the renderer draws with.
#[derive(Clone, Copy, PartialEq, Eq, Structural, Debug)]
pub struct ContextChoice {
    /// WebGL2 handles vertex array objects itself; WebGL1 needs an extension.
    pub api: VertexArrayApi,
    /// How many samples a pixel has.
    pub msaa_sample_count: u32,
}

/// What to do next to obtain a context.
#[derive(Debug)]
pub enum ContextStep {
    /// Ask the canvas for a WebGL2 context, with antialiasing off.
    RequestWebGl2,
    /// Ask the WebGL2 context how many samples it can have.
    RequestMaxSamples,
    /// Ask the canvas for a WebGL1 context, with antialiasing on, because there
    /// is no other way to have it there.
    RequestWebGl1,
    /// Ask the WebGL1 context for vertex array objects.
    RequestVertexArrayExtension,
    Ready(ContextChoice),
    Failed(GlError),
}

/// What was learnt from the last step.
#[derive(Debug)]
pub enum ContextEvent {
    Start,
    WebGl2(ContextReply),
    /// How many samples the context can have, if it says so; and whether this is
    /// a mobile device or a tablet.
    MaxSamples { max_samples: Option<u32>, mobile: bool },
    WebGl1(ContextReply),
    /// Whether there is an extension; or the exception that asking threw.
    VertexArrayExtension(Result<bool, String>),
}

/// An option of a context that is asked for, with its value.
#[derive(Clone, Copy, Debug)]
pub struct ContextOption {
    pub name: &'static str,
    pub value: bool,
}

/// What a canvas is asked for.
#[derive(Debug)]
pub struct ContextRequest {
    /// The kind of context, as the canvas knows it.
    pub context_id: &'static str,
    pub options: Vec<ContextOption>,
}

/// The options of the context that is asked for: with a stencil buffer, without
/// transparency and depth, and only where there is a graphics processor.
pub open spec fn option_seq(antialias: bool) -> Seq<ContextOption> {
    seq![
        ContextOption { name: "stencil", value: true },
        ContextOption { name: "alpha", value: false },
        ContextOption { name: "antialias", value: antialias },
        ContextOption { name: "depth", value: false },
        ContextOption { name: "failIfMajorPerformanceCaveat", value: true },
    ]
}

/// What the canvas is asked for in a step, if it is asked for a context: a
/// WebGL2 context without antialiasing, because it has its own; or a WebGL1
/// context with antialiasing.
pub fn context_request(step: &ContextStep) -> (request: Option<ContextRequest>)
    ensures
        match *step {
            ContextStep::RequestWebGl2 => {
                &&& request matches Some(request)
                &&& request.context_id == "webgl2"
                &&& request.options@ == option_seq(false)
            },
            ContextStep::RequestWebGl1 => {
                &&& request matches Some(request)
                &&& request.context_id == "webgl"
                &&& request.options@ == option_seq(true)
            },
            _ => request is None,
        },
{
    match step {
        ContextStep::RequestWebGl2 => Some(
            ContextRequest { context_id: "webgl2", options: context_options(false) },
        ),
        // Request antialiasing on WebGL1, because there isn't general MSAA support.
        ContextStep::RequestWebGl1 => Some(
            ContextRequest { context_id: "webgl", options: context_options(true) },
        ),
        _ => None,
    }
}

/// The options of the context that is asked for.
pub fn context_options(antialias: bool) -> (options: Vec<ContextOption>)
    ensures
        options@ == option_seq(antialias),
{
    vec![
        ContextOption { name: "stencil", value: true },
        ContextOption { name: "alpha", value: false },
        ContextOption { name: "antialias", value: antialias },
        ContextOption { name: "depth", value: false },
        ContextOption { name: "failIfMajorPerformanceCaveat", value: true },
    ]
}

/// Four samples per pixel, or two on a mobile device; but not more than the
/// device supports, where it says how many those are.
pub open spec fn sample_count(mobile: bool, max_samples: Option<u32>) -> u32 {
    let preferred: u32 = if mobile {
        2
    } else {
        4
    };
    match max_samples {
        Some(max_samples) => if 0 < max_samples && max_samples < preferred {
            max_samples
        } else {
            preferred
        },
        None => preferred,
    }
}

/// How many samples a pixel has in a WebGL2 context.
pub fn msaa_sample_count(mobile: bool, max_samples: Option<u32>) -> (count: u32)
    ensures
        count == sample_count(mobile, max_samples),
{
    let mut count: u32 = if mobile {
        2
    } else {
        4
    };
    if let Some(max_samples) = max_samples {
        if max_samples > 0 && max_samples < count {
            count = max_samples;
        }
    }
    count
}

/// What follows from an event.
///
/// - WebGL2 comes first. With a WebGL2 context, the number of samples is chosen.
/// - Where WebGL2 is unavailable, WebGL1 is the fallback, with one sample; and
///   without WebGL1 or its vertex array objects there is an error.
/// - Something that is no context is an error at once.
pub open spec fn step_after(event: ContextEvent) -> ContextStep {
    match event {
        ContextEvent::Start => ContextStep::RequestWebGl2,
        ContextEvent::WebGl2(ContextReply::Context) => ContextStep::RequestMaxSamples,
        ContextEvent::WebGl2(ContextReply::SomethingElse) => ContextStep::Failed(
            GlError::ExpectedContext,
        ),
        ContextEvent::WebGl2(ContextReply::Unavailable) => ContextStep::RequestWebGl1,
        ContextEvent::MaxSamples { max_samples, mobile } => ContextStep::Ready(
            ContextChoice {
                api: VertexArrayApi::WebGl2,
                msaa_sample_count: sample_count(mobile, max_samples),
            },
        ),
        ContextEvent::WebGl1(ContextReply::Context) => ContextStep::RequestVertexArrayExtension,
        ContextEvent::WebGl1(ContextReply::SomethingElse) => ContextStep::Failed(
            GlError::ExpectedContext,
        ),
        ContextEvent::WebGl1(ContextReply::Unavailable) => ContextStep::Failed(GlError::NoContext),
        ContextEvent::VertexArrayExtension(Ok(true)) => ContextStep::Ready(
            ContextChoice { api: VertexArrayApi::Extension, msaa_sample_count: 1 },
        ),
        ContextEvent::VertexArrayExtension(Ok(false)) => ContextStep::Failed(
            GlError::NoVertexArrayExtension,
        ),
        ContextEvent::VertexArrayExtension(Err(text)) => ContextStep::Failed(
            GlError::Exception(text),
        ),
    }
}

/// What to do next to obtain a context.
pub fn next_context_step(event: ContextEvent) -> (step: ContextStep)
    ensures
        step == step_after(event),
{
    match event {
        ContextEvent::Start => ContextStep::RequestWebGl2,
        ContextEvent::WebGl2(reply) => match reply {
            ContextReply::Context => ContextStep::RequestMaxSamples,
            ContextReply::SomethingElse => ContextStep::Failed(GlError::ExpectedContext),
            ContextReply::Unavailable => ContextStep::RequestWebGl1,
        },
        ContextEvent::MaxSamples { max_samples, mobile } => {
            let msaa_sample_count: u32 = msaa_sample_count(mobile, max_samples);
            ContextStep::Ready(ContextChoice { api: VertexArrayApi::WebGl2, msaa_sample_count })
        },
        ContextEvent::WebGl1(reply) => match reply {
            ContextReply::Context => ContextStep::RequestVertexArrayExtension,
            ContextReply::SomethingElse => ContextStep::Failed(GlError::ExpectedContext),
            ContextReply::Unavailable => ContextStep::Failed(GlError::NoContext),
        },
        ContextEvent::VertexArrayExtension(found) => match found {
            Ok(true) => ContextStep::Ready(
                ContextChoice { api: VertexArrayApi::Extension, msaa_sample_count: 1 },
            ),
            Ok(false) => ContextStep::Failed(GlError::NoVertexArrayExtension),
            Err(text) => ContextStep::Failed(GlError::Exception(text)),
        },
    }
}

/// So many samples are possible: from one to four, at most two on a mobile device,
/// and at most as many as the device says that it supports, if it says so.
pub open spec fn sample_count_allows(count: u32, mobile: bool, max_samples: Option<u32>) -> bool {
    &&& 1 <= count <= 4
    &&& mobile ==> count <= 2
    &&& max_samples matches Some(max) ==> max == 0 || count <= max
}

/// A pixel has at least one sample, at most four, at most two on a mobile
/// device, and never more than the device says that it supports; and of the
/// numbers of samples that this leaves, it has the largest.
pub proof fn law_sample_count_is_supported(mobile: bool, max_samples: Option<u32>)
    ensures
        1 <= sample_count(mobile, max_samples) <= 4,
        mobile ==> sample_count(mobile, max_samples) <= 2,
        max_samples matches Some(max) && max > 0 ==> sample_count(mobile, max_samples)
            <= max_samples->0,
        forall|count: u32|
            #![trigger sample_count_allows(count, mobile, max_samples)]
            sample_count_allows(count, mobile, max_samples) ==> count <= sample_count(
                mobile,
                max_samples,
            ),
{
}

/// The event is an answer to what was asked.
pub open spec fn answers(step: ContextStep, event: ContextEvent) -> bool {
    match step {
        ContextStep::RequestWebGl2 => event is WebGl2,
        ContextStep::RequestMaxSamples => event is MaxSamples,
        ContextStep::RequestWebGl1 => event is WebGl1,
        ContextStep::RequestVertexArrayExtension => event is VertexArrayExtension,
        ContextStep::Ready(_) => false,
        ContextStep::Failed(_) => false,
    }
}

/// There is nothing more to ask.
pub open spec fn is_over(step: ContextStep) -> bool {
    step is Ready || step is Failed
}

/// After at most three answers there is a context or an error, and WebGL1 is
/// asked for, and chosen, only where WebGL2 was unavailable.
pub proof fn law_context_is_obtained(
    first: ContextEvent,
    second: ContextEvent,
    third: ContextEvent,
)
    requires
        answers(step_after(ContextEvent::Start), first),
        !is_over(step_after(first)) ==> answers(step_after(first), second),
        !is_over(step_after(first)) && !is_over(step_after(second)) ==> answers(
            step_after(second),
            third,
        ),
    ensures
        ({
            let last = if is_over(step_after(first)) {
                step_after(first)
            } else if is_over(step_after(second)) {
                step_after(second)
            } else {
                step_after(third)
            };
            &&& is_over(last)
            &&& step_after(first) is RequestWebGl1 <==> first == ContextEvent::WebGl2(
                ContextReply::Unavailable,
            )
            &&& !(step_after(second) is RequestWebGl1) || is_over(step_after(first))
            &&& !(step_after(third) is RequestWebGl1) || is_over(step_after(first)) || is_over(
                step_after(second),
            )
            &&& last matches ContextStep::Ready(choice) ==> choice.api == if first
                == ContextEvent::WebGl2(ContextReply::Context) {
                VertexArrayApi::WebGl2
            } else {
                VertexArrayApi::Extension
            }
            &&& last matches ContextStep::Ready(choice) ==> first != ContextEvent::WebGl2(
                ContextReply::Context,
            ) ==> first == ContextEvent::WebGl2(ContextReply::Unavailable)
        }),
{
}

/// How it ends, and on what: with a WebGL2 context exactly after it said how many
/// samples it can have, and with so many of them; with a WebGL1 context exactly
/// where it has vertex array objects, with one sample; and with an error exactly
/// where an answer was no context, where there was no WebGL1, or where it has no
/// vertex array objects.
pub proof fn law_context_steps(event: ContextEvent, count: u32, text: String)
    ensures
        step_after(event) == ContextStep::Ready(
            ContextChoice { api: VertexArrayApi::WebGl2, msaa_sample_count: count },
        ) <==> {
            &&& event matches ContextEvent::MaxSamples { max_samples, mobile }
            &&& sample_count_allows(count, mobile, max_samples)
            &&& forall|more: u32| #[trigger]
                sample_count_allows(more, mobile, max_samples) ==> more <= count
        },
        step_after(event) == ContextStep::Ready(
            ContextChoice { api: VertexArrayApi::Extension, msaa_sample_count: count },
        ) <==> {
            &&& event == ContextEvent::VertexArrayExtension(Ok(true))
            &&& count == 1
        },
        step_after(event) == ContextStep::Failed(GlError::ExpectedContext) <==> {
            ||| event == ContextEvent::WebGl2(ContextReply::SomethingElse)
            ||| event == ContextEvent::WebGl1(ContextReply::SomethingElse)
        },
        step_after(event) == ContextStep::Failed(GlError::NoContext) <==> event
            == ContextEvent::WebGl1(ContextReply::Unavailable),
        step_after(event) == ContextStep::Failed(GlError::NoVertexArrayExtension) <==> event
            == ContextEvent::VertexArrayExtension(Ok(false)),
        step_after(event) == ContextStep::Failed(GlError::Exception(text)) <==> event
            == ContextEvent::VertexArrayExtension(Err(text)),
        step_after(event) is RequestWebGl2 <==> event is Start,
        step_after(event) is RequestMaxSamples <==> event == ContextEvent::WebGl2(
            ContextReply::Context,
        ),
        step_after(event) is RequestWebGl1 <==> event == ContextEvent::WebGl2(
            ContextReply::Unavailable,
        ),
        step_after(event) is RequestVertexArrayExtension <==> event == ContextEvent::WebGl1(
            ContextReply::Context,
        ),
{
    if let ContextEvent::MaxSamples { max_samples, mobile } = event {
        law_sample_count_is_supported(mobile, max_samples);
        let chosen = sample_count(mobile, max_samples);
        assert(sample_count_allows(chosen, mobile, max_samples));
    }
}

/// Every context is asked for with a stencil buffer, without transparency and
/// depth, only where there is a graphics processor, and with antialiasing where
/// that is asked for; each option once.
pub proof fn law_context_options(antialias: bool)
    ensures
        option_seq(antialias).len() == 5,
        option_seq(antialias).contains(ContextOption { name: "stencil", value: true }),
        option_seq(antialias).contains(ContextOption { name: "alpha", value: false }),
        option_seq(antialias).contains(ContextOption { name: "antialias", value: antialias }),
        option_seq(antialias).contains(ContextOption { name: "depth", value: false }),
        option_seq(antialias).contains(
            ContextOption { name: "failIfMajorPerformanceCaveat", value: true },
        ),
{
    let options = option_seq(antialias);
    assert(options[0] == ContextOption { name: "stencil", value: true });
    assert(options[1] == ContextOption { name: "alpha", value: false });
    assert(options[2] == ContextOption { name: "antialias", value: antialias });
    assert(options[3] == ContextOption { name: "depth", value: false });
    assert(options[4] == ContextOption { name: "failIfMajorPerformanceCaveat", value: true });
}

} // verus!
