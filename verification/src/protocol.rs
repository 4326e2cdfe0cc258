//! The values that cross the boundary between callers and the render worker.
//!
//! Only plain data crosses it: a request names a drawing command and the
//! ticket of the call that waits for it, a response carries that ticket back
//! with either the pixels or the reason why there are none.

use vstd::prelude::*;

verus! {

/// Everything that can go wrong between a caller and its pixels.
#[derive(Clone, Copy, Debug, PartialEq, Eq, Structural)]
pub enum RenderError {
    /// No compatible graphics device was found. Fatal: the worker never
    /// serves a request.
    DeviceUnavailable,
    /// The device rejected or failed one render submission. The worker
    /// goes on with the next request.
    RenderFailure,
    /// The rendered pixels could not be read back. The worker goes on with
    /// the next request.
    ReadbackFailure,
    /// No worker is registered under the key, or its channel is severed.
    WorkerUnreachable,
    /// The peer that should have taken a response has disappeared.
    ChannelClosed,
}

/// A point in the scene. Each coordinate is kept as the bit pattern of a
/// 64-bit IEEE 754 number: the service hands positions on and never
/// computes with them.
#[derive(Clone, Copy, Debug, PartialEq, Eq, Structural)]
pub struct Pos {
    pub x: u64,
    pub y: u64,
}

/// What a request asks the worker to draw.
#[derive(Clone, Copy, Debug, PartialEq, Eq, Structural)]
pub enum RenderCommand {
    /// Draw the scene parameterized by one position.
    Render(Pos),
}

/// One request to the worker. `id` is the ticket of the call that made it.
#[derive(Clone, Copy, Debug, PartialEq, Eq, Structural)]
pub struct RenderRequest {
    pub id: u64,
    pub command: RenderCommand,
}

/// The worker's answer to the request with the same `id`: the tightly
/// packed pixels, or why there are none.
#[derive(Clone, Debug, PartialEq, Eq)]
pub enum RenderResponse {
    Pixels { id: u64, data: Vec<u8> },
    Failed { id: u64, error: RenderError },
}

/// A response as a mathematical value.
pub enum ResponseView {
    Pixels { id: u64, data: Seq<u8> },
    Failed { id: u64, error: RenderError },
}

impl ResponseView {
    /// The ticket of the call that this response belongs to.
    pub open spec fn id(self) -> u64 {
        match self {
            ResponseView::Pixels { id, .. } => id,
            ResponseView::Failed { id, .. } => id,
        }
    }
}

impl View for RenderResponse {
    type V = ResponseView;

    open spec fn view(&self) -> ResponseView {
        match *self {
            RenderResponse::Pixels { id, data } => ResponseView::Pixels { id, data: data@ },
            RenderResponse::Failed { id, error } => ResponseView::Failed { id, error },
        }
    }
}

impl RenderResponse {
    /// The ticket of the call that this response belongs to.
    pub fn id(&self) -> (id: u64)
        ensures
            id == self@.id(),
    {
        match self {
            RenderResponse::Pixels { id, .. } => *id,
            RenderResponse::Failed { id, .. } => *id,
        }
    }
}

/// How edges are smoothed.
#[derive(Clone, Copy, Debug, PartialEq, Eq, Structural)]
pub enum Antialiasing {
    Area,
    Msaa8,
    Msaa16,
}

/// A color with 8-bit channels, not premultiplied.
#[derive(Clone, Copy, Debug, PartialEq, Eq, Structural)]
pub struct Rgba {
    pub r: u8,
    pub g: u8,
    pub b: u8,
    pub a: u8,
}

/// What a worker is built with: the size of every image it renders, the
/// color behind the scene and the antialiasing mode.
#[derive(Clone, Copy, Debug, PartialEq, Eq, Structural)]
pub struct RenderConfig {
    pub width: u32,
    pub height: u32,
    pub background: Rgba,
    pub antialiasing: Antialiasing,
}

impl RenderConfig {
    /// The standard output: 800 by 600 pixels on opaque black, with
    /// 16-sample antialiasing.
    pub open spec fn standard() -> RenderConfig {
        RenderConfig {
            width: 800,
            height: 600,
            background: Rgba { r: 0, g: 0, b: 0, a: 255 },
            antialiasing: Antialiasing::Msaa16,
        }
    }

    /// Bytes in one image of this size, tightly packed.
    pub open spec fn packed_len(self) -> int {
        self.width * self.height * 4
    }
}

impl Default for RenderConfig {
    fn default() -> (config: RenderConfig)
        ensures
            config == RenderConfig::standard(),
    {
        RenderConfig {
            width: 800,
            height: 600,
            background: Rgba { r: 0, g: 0, b: 0, a: 255 },
            antialiasing: Antialiasing::Msaa16,
        }
    }
}

} // verus!
