[package]
name = "ruffle"
version = "0.1.0"
edition = "2021"
publish = false

[dependencies]
enumset = "1"
js-sys = "0.3"
log = "0.4"
wasm-bindgen = "0.2"

[dependencies.web-sys]
version = "0.3"
features = [
    "HtmlCanvasElement",
    "OesVertexArrayObject",
    "WebGl2RenderingContext",
    "WebGlBuffer",
    "WebGlFramebuffer",
    "WebGlProgram",
    "WebGlRenderbuffer",
    "WebGlRenderingContext",
    "WebGlShader",
    "WebGlTexture",
    "WebGlUniformLocation",
    "WebGlVertexArrayObject",
    "WebglDebugRendererInfo",
]
