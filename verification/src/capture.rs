//! The capture-side value model: displays as the platform layer enumerates
//! them (geometry and default flag), the selection of the primary display,
//! and a capturer that hands captured frames to the encoder as plain
//! buffers.

use vstd::prelude::*;
use crate::convert::RawFrame;

verus! {

/// What can go wrong on the capture side.
#[derive(Clone, Copy, Debug, PartialEq, Eq, Structural)]
pub enum CaptureError {
    /// The display server could not be reached.
    ConnectionRefused,
    /// No display was found.
    NotFound,
    /// No captured frame is available yet.
    WouldBlock,
}

/// One display's geometry, in pixels.
#[derive(Clone, Copy, Debug, PartialEq, Eq, Structural)]
pub struct Rect {
    pub x: i32,
    pub y: i32,
    pub w: i32,
    pub h: i32,
}

/// What the platform layer reports about one display.
#[derive(Clone, Copy, Debug, PartialEq, Eq, Structural)]
pub struct DisplayInfo {
    pub rect: Rect,
    pub is_default: bool,
}

/// One display of the machine.
#[derive(Clone, Copy, Debug, PartialEq, Eq, Structural)]
pub struct Display(pub DisplayInfo);

impl Display {
    /// The geometry is non-negative.
    pub open spec fn wf(&self) -> bool {
        self.0.rect.w >= 0 && self.0.rect.h >= 0
    }

    /// The primary display among those enumerated: the first default one,
    /// or the first of all when none is marked default; with none at all,
    /// the display server has nothing to capture.
    pub fn primary(displays: &Vec<Display>) -> (r: Result<Display, CaptureError>)
        ensures
            r is Err <==> displays@.len() == 0,
            r is Err ==> r == Err::<Display, CaptureError>(CaptureError::NotFound),
            (exists|i: int| 0 <= i < displays@.len() && (#[trigger] displays@[i]).0.is_default)
                ==> (r matches Ok(d) && (exists|i: int|
                {
                    &&& 0 <= i < displays@.len()
                    &&& (#[trigger] displays@[i]).0.is_default
                    &&& d == displays@[i]
                    &&& forall|j: int| 0 <= j < i ==> !(#[trigger] displays@[j]).0.is_default
                })),
            (forall|i: int| 0 <= i < displays@.len() ==> !(#[trigger] displays@[i]).0.is_default)
                && displays@.len() > 0 ==> r == Ok::<Display, CaptureError>(displays@[0]),
    {
        let n = displays.len();
        if n == 0 {
            return Err(CaptureError::NotFound);
        }
        for i in 0..n
            invariant
                n == displays@.len(),
                n > 0,
                forall|j: int| 0 <= j < i ==> !(#[trigger] displays@[j]).0.is_default,
        {
            if displays[i].0.is_default {
                return Ok(displays[i]);
            }
        }
        Ok(displays[0])
    }

    /// Wraps every enumerated display, in order.
    pub fn all(infos: &Vec<DisplayInfo>) -> (r: Vec<Display>)
        ensures
            r@.len() == infos@.len(),
            forall|i: int| 0 <= i < infos@.len() ==> (#[trigger] r@[i]).0 == infos@[i],
    {
        let n = infos.len();
        let mut out: Vec<Display> = Vec::new();
        for i in 0..n
            invariant
                n == infos@.len(),
                out@.len() == i,
                forall|j: int| 0 <= j < i ==> (#[trigger] out@[j]).0 == infos@[j],
        {
            out.push(Display(infos[i]));
        }
        out
    }

    pub fn width(&self) -> (r: usize)
        requires
            self.wf(),
        ensures
            r == self.0.rect.w,
    {
        self.0.rect.w as usize
    }

    pub fn height(&self) -> (r: usize)
        requires
            self.wf(),
        ensures
            r == self.0.rect.h,
    {
        self.0.rect.h as usize
    }

    pub fn origin(&self) -> (r: (i32, i32))
        ensures
            r.0 == self.0.rect.x,
            r.1 == self.0.rect.y,
    {
        (self.0.rect.x, self.0.rect.y)
    }

    /// Every enumerated display is online.
    pub fn is_online(&self) -> (r: bool)
        ensures
            r == true,
    {
        true
    }

    pub fn is_primary(&self) -> (r: bool)
        ensures
            r == self.0.is_default,
    {
        self.0.is_default
    }

    /// The platform layer reports no display names.
    pub fn name(&self) -> (r: String)
        ensures
            r@ == Seq::<char>::empty(),
    {
        String::new()
    }
}

/// One captured frame's bytes.
pub struct Frame<'a>(pub &'a [u8]);

impl<'a> Frame<'a> {
    pub fn bytes(&self) -> (r: &'a [u8])
        ensures
            r@ == self.0@,
    {
        self.0
    }
}

/// Captures frames of one display: the platform layer deposits each raw
/// captured buffer, and the encoder reads it as an interleaved BGRA frame.
pub struct Capturer {
    pub display: Display,
    pub buf: Vec<u8>,
}

impl Capturer {
    pub fn new(display: Display) -> (r: Result<Capturer, CaptureError>)
        ensures
            r matches Ok(c) && c.display == display && c.buf@.len() == 0,
    {
        Ok(Capturer { display, buf: Vec::new() })
    }

    pub fn width(&self) -> (r: usize)
        requires
            self.display.wf(),
        ensures
            r == self.display.0.rect.w,
    {
        self.display.width()
    }

    pub fn height(&self) -> (r: usize)
        requires
            self.display.wf(),
        ensures
            r == self.display.0.rect.h,
    {
        self.display.height()
    }

    /// Deposits one captured buffer, as the platform layer hands it over.
    pub fn set_frame_data(&mut self, data: Vec<u8>)
        ensures
            final(self).buf == data,
            final(self).display == old(self).display,
    {
        self.buf = data;
    }

    /// The most recently captured frame, as interleaved BGRA; without one
    /// deposited, capture would block.
    pub fn frame(&self) -> (r: Result<RawFrame<'_>, CaptureError>)
        ensures
            self.buf@.len() == 0 ==> r == Err::<RawFrame<'_>, CaptureError>(
                CaptureError::WouldBlock,
            ),
            self.buf@.len() > 0 ==> (r matches Ok(f) && f matches RawFrame::BGRA(b) && b@
                == self.buf@),
    {
        if self.buf.len() == 0 {
            Err(CaptureError::WouldBlock)
        } else {
            Ok(RawFrame::BGRA(self.buf.as_slice()))
        }
    }
}

} // verus!
