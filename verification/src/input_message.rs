//! Messages from input sources: colors, images and LED data to show, with a
//! priority and an optional duration.

use std::sync::Arc;
use vstd::prelude::*;

use crate::color::Color;
use crate::image::RawImage;

verus! {

/// `chrono::TimeDelta` (which `chrono::Duration` names), carried opaque in
/// input messages.
#[verifier::external_type_specification]
#[verifier::external_body]
pub struct ExTimeDelta(chrono::TimeDelta);

/// Components of the daemon that send or receive messages.
#[derive(Debug, Clone, Copy, PartialEq, Eq, Hash, Structural)]
pub enum ComponentName {
    All,
    Smoothing,
    BlackBorder,
    Forwarder,
    BoblightServer,
    Grabber,
    V4L,
    Color,
    ImageProcessor,
    LedDevice,
    FlatbufServer,
    ProtoServer,
}

/// The data of an input message.
#[derive(Debug, Clone)]
pub enum InputMessageData {
    ClearAll,
    Clear { priority: i32 },
    SolidColor { priority: i32, duration: Option<chrono::Duration>, color: Color },
    Image { priority: i32, duration: Option<chrono::Duration>, image: Arc<RawImage> },
    LedColors { priority: i32, duration: Option<chrono::Duration>, led_colors: Arc<Vec<Color>> },
}

impl InputMessageData {
    /// The priority carried by the message, if any.
    pub open spec fn spec_priority(self) -> Option<i32> {
        match self {
            InputMessageData::ClearAll => None,
            InputMessageData::Clear { priority } => Some(priority),
            InputMessageData::SolidColor { priority, .. } => Some(priority),
            InputMessageData::Image { priority, .. } => Some(priority),
            InputMessageData::LedColors { priority, .. } => Some(priority),
        }
    }

    /// The duration carried by the message, if any.
    pub open spec fn spec_duration(self) -> Option<chrono::Duration> {
        match self {
            InputMessageData::ClearAll => None,
            InputMessageData::Clear { .. } => None,
            InputMessageData::SolidColor { duration, .. } => duration,
            InputMessageData::Image { duration, .. } => duration,
            InputMessageData::LedColors { duration, .. } => duration,
        }
    }

    /// Returns the priority of the message: none for ClearAll.
    pub fn priority(&self) -> (r: Option<i32>)
        ensures
            r == self.spec_priority(),
            *self matches InputMessageData::Clear { priority } ==> r == Some(priority),
            *self matches InputMessageData::SolidColor { priority, .. } ==> r == Some(priority),
            *self matches InputMessageData::Image { priority, .. } ==> r == Some(priority),
            *self matches InputMessageData::LedColors { priority, .. } ==> r == Some(priority),
            r is None <==> self is ClearAll,
    {
        match self {
            InputMessageData::ClearAll => None,
            InputMessageData::Clear { priority } => Some(*priority),
            InputMessageData::SolidColor { priority, .. } => Some(*priority),
            InputMessageData::Image { priority, .. } => Some(*priority),
            InputMessageData::LedColors { priority, .. } => Some(*priority),
        }
    }

    /// Returns the duration of the message: none for ClearAll and Clear.
    pub fn duration(&self) -> (r: Option<chrono::Duration>)
        ensures
            r == self.spec_duration(),
            *self matches InputMessageData::SolidColor { duration, .. } ==> r == duration,
            *self matches InputMessageData::Image { duration, .. } ==> r == duration,
            *self matches InputMessageData::LedColors { duration, .. } ==> r == duration,
            (self is ClearAll || self is Clear) ==> r is None,
    {
        match self {
            InputMessageData::ClearAll => None,
            InputMessageData::Clear { .. } => None,
            InputMessageData::SolidColor { duration, .. } => *duration,
            InputMessageData::Image { duration, .. } => *duration,
            InputMessageData::LedColors { duration, .. } => *duration,
        }
    }
}

/// A message reports the priority and the duration it was built with: every
/// variant but ClearAll carries its priority, and the variants that carry a
/// duration report that duration.
pub proof fn lemma_message_fields(
    priority: i32,
    duration: Option<chrono::Duration>,
    color: Color,
    image: Arc<RawImage>,
    led_colors: Arc<Vec<Color>>,
)
    ensures
        InputMessageData::ClearAll.spec_priority() is None,
        InputMessageData::ClearAll.spec_duration() is None,
        (InputMessageData::Clear { priority }).spec_priority() == Some(priority),
        (InputMessageData::Clear { priority }).spec_duration() is None,
        (InputMessageData::SolidColor { priority, duration, color }).spec_priority() == Some(
            priority,
        ),
        (InputMessageData::SolidColor { priority, duration, color }).spec_duration() == duration,
        (InputMessageData::Image { priority, duration, image }).spec_priority() == Some(priority),
        (InputMessageData::Image { priority, duration, image }).spec_duration() == duration,
        (InputMessageData::LedColors { priority, duration, led_colors }).spec_priority() == Some(
            priority,
        ),
        (InputMessageData::LedColors { priority, duration, led_colors }).spec_duration()
            == duration,
{
}

/// A message from an input source.
#[derive(Debug, Clone)]
pub struct InputMessage {
    source_id: usize,
    component: ComponentName,
    data: InputMessageData,
}

impl InputMessage {
    /// Id of the input source that sent the message.
    pub closed spec fn spec_source_id(&self) -> usize {
        self.source_id
    }

    /// Component that sent the message.
    pub closed spec fn spec_component(&self) -> ComponentName {
        self.component
    }

    /// Data of the message.
    pub closed spec fn spec_data(&self) -> InputMessageData {
        self.data
    }

    /// Builds a message.
    pub fn new(source_id: usize, component: ComponentName, data: InputMessageData) -> (r: Self)
        ensures
            r.spec_source_id() == source_id,
            r.spec_component() == component,
            r.spec_data() == data,
    {
        Self { source_id, component, data }
    }

    /// Returns the id of the input source that sent the message.
    pub fn source_id(&self) -> (r: usize)
        ensures
            r == self.spec_source_id(),
    {
        self.source_id
    }

    /// Returns the component that sent the message.
    pub fn component(&self) -> (r: ComponentName)
        ensures
            r == self.spec_component(),
    {
        self.component
    }

    /// Returns the data of the message.
    pub fn data(&self) -> (r: &InputMessageData)
        ensures
            *r == self.spec_data(),
    {
        &self.data
    }
}

} // verus!
