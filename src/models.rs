use vstd::prelude::*;

verus! {

/// A user account as stored in the database.
#[derive(Debug)]
pub struct User {
    pub id: i32,
    pub mail: Option<String>,
    pub username: String,
    pub password: String,
    pub role_id: Option<i32>,
    pub channel_id: Option<i32>,
    pub token: Option<String>,
}

/// The value of a password that was not given.
pub fn empty_string() -> (r: String)
    ensures
        r@ == Seq::<char>::empty(),
{
    String::new()
}

/// An authenticated user as handed to request handlers: its id and name.
#[derive(Debug, Clone)]
pub struct LoginUser {
    pub id: i32,
    pub username: String,
}

impl LoginUser {
    pub fn new(id: i32, username: String) -> (r: Self)
        ensures
            r.id == id,
            r.username@ == username@,
    {
        LoginUser { id, username }
    }
}

/// A stored preset for text drawn over the video. Numeric settings are
/// kept as their text; `draw_box` is the text of the box switch.
#[derive(Debug, Clone)]
pub struct TextPreset {
    pub id: i32,
    pub channel_id: i32,
    pub name: String,
    pub text: String,
    pub x: String,
    pub y: String,
    pub fontsize: String,
    pub line_spacing: String,
    pub fontcolor: String,
    pub draw_box: String,
    pub boxcolor: String,
    pub boxborderw: String,
    pub alpha: String,
}

/// The audio track taken when none is configured: all of them.
pub fn default_track_index() -> (r: i32)
    ensures
        r == -1,
{
    -1
}

/// The number of audio tracks when none is configured.
pub fn default_tracks() -> (r: i32)
    ensures
        r == 1,
{
    1
}

/// The number of audio channels when none is configured.
pub fn default_channels() -> (r: u8)
    ensures
        r == 2,
{
    2
}

/// Per-channel overrides of the ffmpeg parameters and filter templates.
#[derive(Debug, Clone)]
pub struct AdvancedConfiguration {
    pub id: i32,
    pub channel_id: i32,
    pub decoder_input_param: Option<String>,
    pub decoder_output_param: Option<String>,
    pub encoder_input_param: Option<String>,
    pub ingest_input_param: Option<String>,
    pub deinterlace: Option<String>,
    pub pad_scale_w: Option<String>,
    pub pad_scale_h: Option<String>,
    pub pad_video: Option<String>,
    pub fps: Option<String>,
    pub scale: Option<String>,
    pub set_dar: Option<String>,
    pub fade_in: Option<String>,
    pub fade_out: Option<String>,
    pub overlay_logo_scale: Option<String>,
    pub overlay_logo_fade_in: Option<String>,
    pub overlay_logo_fade_out: Option<String>,
    pub overlay_logo: Option<String>,
    pub tpad: Option<String>,
    pub drawtext_from_file: Option<String>,
    pub drawtext_from_zmq: Option<String>,
    pub aevalsrc: Option<String>,
    pub afade_in: Option<String>,
    pub afade_out: Option<String>,
    pub apad: Option<String>,
    pub volume: Option<String>,
    pub split: Option<String>,
}

} // verus!
