//! What the platforms answer: the camera result, the desktop and iOS
//! stubs, the parts of the Android platform that need no Java call, and
//! the lifecycle events of the Android event loop with their one-byte
//! encoding.
use vstd::prelude::*;
use crate::error::ShuseiError;
use crate::storage::{join_path, path_join};
use crate::text::{chars_of, split_by, split_chars, separator_fn, string_from_chars, Separator};

verus! {

/// An image from the camera.
#[derive(Debug, Clone)]
pub struct CameraResult {
    /// The image, PNG or JPEG.
    pub image_data: Vec<u8>,
    pub width: u32,
    pub height: u32,
    /// The image format, such as `png` or `jpeg`.
    pub format: String,
}

/// Whether `r` is a platform error with the message `m`.
pub open spec fn is_platform_error<T>(r: Result<T, ShuseiError>, m: Seq<char>) -> bool {
    r matches Err(ShuseiError::Platform(s)) && s@ == m
}

/// The desktop platform, used in development: it has no camera, microphone
/// or file picker.
pub struct DesktopPlatform;

impl DesktopPlatform {
    pub fn new() -> (p: DesktopPlatform) {
        DesktopPlatform
    }

    /// Capturing an image fails.
    pub fn capture_image(&self) -> (r: Result<CameraResult, ShuseiError>)
        ensures
            is_platform_error(r, "Camera not available on desktop"@),
    {
        Err(ShuseiError::Platform(String::from_str("Camera not available on desktop")))
    }

    /// Why recording audio fails.
    pub fn record_audio_error(&self, max_seconds: u32) -> (e: ShuseiError)
        ensures
            e matches ShuseiError::Platform(s) && s@ == "Audio recording not implemented on desktop"@,
    {
        ShuseiError::Platform(String::from_str("Audio recording not implemented on desktop"))
    }

    /// Picking a file fails.
    pub fn pick_file(&self, extensions: &[&str]) -> (r: Result<String, ShuseiError>)
        ensures
            is_platform_error(r, "File picker not implemented"@),
    {
        Err(ShuseiError::Platform(String::from_str("File picker not implemented")))
    }

    /// No permission is granted.
    pub fn has_camera_permission(&self) -> (b: bool)
        ensures
            !b,
    {
        false
    }

    /// No permission is granted.
    pub fn has_microphone_permission(&self) -> (b: bool)
        ensures
            !b,
    {
        false
    }

    /// Asking for a permission is answered no.
    pub fn request_camera_permission(&self) -> (r: Result<bool, ShuseiError>)
        ensures
            r == Ok::<bool, ShuseiError>(false),
    {
        Ok(false)
    }

    /// Asking for a permission is answered no.
    pub fn request_microphone_permission(&self) -> (r: Result<bool, ShuseiError>)
        ensures
            r == Ok::<bool, ShuseiError>(false),
    {
        Ok(false)
    }
}

/// The iOS platform, whose facilities are not implemented yet.
pub struct IosPlatform;

impl IosPlatform {
    pub fn new() -> (p: IosPlatform) {
        IosPlatform
    }

    /// Capturing an image fails.
    pub fn capture_image(&self) -> (r: Result<CameraResult, ShuseiError>)
        ensures
            is_platform_error(r, "iOS camera not yet implemented. This will be added in post-MVP."@),
    {
        Err(
            ShuseiError::Platform(
                String::from_str("iOS camera not yet implemented. This will be added in post-MVP."),
            ),
        )
    }

    /// Why recording audio fails.
    pub fn record_audio_error(&self, max_seconds: u32) -> (e: ShuseiError)
        ensures
            e matches ShuseiError::Platform(s) && s@ == "iOS audio recording not yet implemented."@,
    {
        ShuseiError::Platform(String::from_str("iOS audio recording not yet implemented."))
    }

    /// Picking a file fails.
    pub fn pick_file(&self, extensions: &[&str]) -> (r: Result<String, ShuseiError>)
        ensures
            is_platform_error(r, "iOS file picker not yet implemented."@),
    {
        Err(ShuseiError::Platform(String::from_str("iOS file picker not yet implemented.")))
    }

    /// No permission is granted.
    pub fn has_camera_permission(&self) -> (b: bool)
        ensures
            !b,
    {
        false
    }

    /// No permission is granted.
    pub fn has_microphone_permission(&self) -> (b: bool)
        ensures
            !b,
    {
        false
    }

    /// Asking for a permission is answered no.
    pub fn request_camera_permission(&self) -> (r: Result<bool, ShuseiError>)
        ensures
            r == Ok::<bool, ShuseiError>(false),
    {
        Ok(false)
    }

    /// Asking for a permission is answered no.
    pub fn request_microphone_permission(&self) -> (r: Result<bool, ShuseiError>)
        ensures
            r == Ok::<bool, ShuseiError>(false),
    {
        Ok(false)
    }
}

impl Default for IosPlatform {
    fn default() -> (p: IosPlatform) {
        IosPlatform
    }
}

/// The Android platform. Its camera, file picker, vibration and camera
/// permission go through Java; what needs no Java call is here.
pub struct AndroidPlatform;

impl AndroidPlatform {
    pub fn new() -> (p: AndroidPlatform) {
        AndroidPlatform
    }

    /// Why recording audio fails.
    pub fn record_audio_error(&self, max_seconds: u32) -> (e: ShuseiError)
        ensures
            e matches ShuseiError::Platform(s) && s@ == "JNI audio recording not yet implemented."@,
    {
        ShuseiError::Platform(String::from_str("JNI audio recording not yet implemented."))
    }

    /// The microphone permission is not granted.
    pub fn has_microphone_permission(&self) -> (b: bool)
        ensures
            !b,
    {
        false
    }

    /// Asking for the microphone is answered no.
    pub fn request_microphone_permission(&self) -> (r: Result<bool, ShuseiError>)
        ensures
            r == Ok::<bool, ShuseiError>(false),
    {
        Ok(false)
    }
}

impl Default for AndroidPlatform {
    fn default() -> (p: AndroidPlatform) {
        AndroidPlatform
    }
}

/// The Android app's files directory.
pub open spec fn android_files_dir() -> Seq<char> {
    "/data/data/com.shusei.app/files"@
}

/// The directory where the Android app keeps its files.
pub fn get_assets_directory() -> (r: Result<String, ShuseiError>)
    ensures
        r matches Ok(d) && d@ == android_files_dir(),
{
    Ok(String::from_str("/data/data/com.shusei.app/files"))
}

/// The last of the pieces that names something: neither empty nor `.`.
pub open spec fn last_named(pieces: Seq<Seq<char>>) -> Option<Seq<char>>
    decreases pieces.len(),
{
    if pieces.len() == 0 {
        None
    } else if pieces.last().len() > 0 && pieces.last() != "."@ {
        Some(pieces.last())
    } else {
        last_named(pieces.drop_last())
    }
}

/// The last component of a `/`-separated path, unless the path ends in
/// `..` or has none, as `Path::file_name` finds it.
pub open spec fn file_name_of(path: Seq<char>) -> Option<Seq<char>> {
    match last_named(split_by(path, separator_fn(Separator::Slash))) {
        Some(n) => if n == ".."@ { None } else { Some(n) },
        None => None,
    }
}

/// The name under which a bundled asset is copied: the asset path's file
/// name; a path without one is an error.
pub fn asset_file_name(asset_path: &str) -> (r: Result<String, ShuseiError>)
    ensures
        match file_name_of(asset_path@) {
            Some(n) => r matches Ok(s) && s@ == n,
            None => is_platform_error(r, "Invalid asset path"@),
        },
{
    let chars = chars_of(asset_path);
    let pieces = split_chars(&chars, &Separator::Slash);
    let ghost all = pieces.deep_view();
    let mut n = pieces.len();
    assert(all.subrange(0, n as int) =~= all);
    while n > 0
        invariant
            n <= pieces@.len(),
            all == pieces.deep_view(),
            all == split_by(asset_path@, separator_fn(Separator::Slash)),
            last_named(all) == last_named(all.subrange(0, n as int)),
        decreases n,
    {
        let piece = &pieces[n - 1];
        assert(piece@ == all[n - 1]);
        assert(all.subrange(0, n as int).last() == all[n - 1]);
        assert(all.subrange(0, n as int).drop_last() =~= all.subrange(0, n - 1));
        let named = piece.len() > 0 && !(piece.len() == 1 && piece[0] == '.');
        if named {
            assert(piece@ != "."@) by {
                reveal_strlit(".");
                if piece@.len() == 1 {
                    assert(piece@[0] != '.');
                }
            }
            let is_parent = piece.len() == 2 && piece[0] == '.' && piece[1] == '.';
            proof {
                reveal_strlit("..");
                if piece@ == ".."@ {
                    assert(piece@[0] == '.' && piece@[1] == '.');
                }
                if is_parent {
                    assert(piece@ =~= ".."@);
                }
            }
            if is_parent {
                return Err(ShuseiError::Platform(String::from_str("Invalid asset path")));
            }
            let name = string_from_chars(piece.as_slice(), 0, piece.len());
            assert(piece@.subrange(0, piece@.len() as int) =~= piece@);
            return Ok(name);
        }
        proof {
            reveal_strlit(".");
            if piece@.len() == 1 {
                assert(piece@ =~= "."@);
            }
        }
        n = n - 1;
    }
    assert(all.subrange(0, 0) =~= Seq::<Seq<char>>::empty());
    Err(ShuseiError::Platform(String::from_str("Invalid asset path")))
}

/// Where a bundled asset is copied: its file name in the app's files
/// directory.
pub fn asset_target_path(asset_path: &str) -> (r: Result<String, ShuseiError>)
    ensures
        match file_name_of(asset_path@) {
            Some(n) => r matches Ok(s) && s@ == path_join(android_files_dir(), n),
            None => is_platform_error(r, "Invalid asset path"@),
        },
{
    let dir = get_assets_directory()?;
    let name = asset_file_name(asset_path)?;
    Ok(join_path(dir.as_str(), name.as_str()))
}

/// A lifecycle event of the Android activity, as the event loop receives
/// it.
#[derive(Debug, Clone, Copy, PartialEq, Eq, Structural)]
pub enum Event {
    Start,
    Resume,
    SaveInstanceState,
    Pause,
    Stop,
    Destroy,
    LowMemory,
    WindowLostFocus,
    WindowHasFocus,
}

/// The byte that stands for an event on the wake pipe: its position in the
/// declaration, from 0.
pub open spec fn event_code(e: Event) -> u8 {
    match e {
        Event::Start => 0,
        Event::Resume => 1,
        Event::SaveInstanceState => 2,
        Event::Pause => 3,
        Event::Stop => 4,
        Event::Destroy => 5,
        Event::LowMemory => 6,
        Event::WindowLostFocus => 7,
        Event::WindowHasFocus => 8,
    }
}

impl Event {
    /// The byte written to the wake pipe for this event.
    pub fn to_byte(&self) -> (b: u8)
        ensures
            b == event_code(*self),
    {
        match self {
            Event::Start => 0,
            Event::Resume => 1,
            Event::SaveInstanceState => 2,
            Event::Pause => 3,
            Event::Stop => 4,
            Event::Destroy => 5,
            Event::LowMemory => 6,
            Event::WindowLostFocus => 7,
            Event::WindowHasFocus => 8,
        }
    }

    /// The event a byte read from the wake pipe stands for; a byte no event
    /// is written as stands for none.
    pub fn from_byte(b: u8) -> (e: Option<Event>)
        ensures
            e matches Some(ev) ==> event_code(ev) == b,
            e is None <==> b > 8,
    {
        match b {
            0 => Some(Event::Start),
            1 => Some(Event::Resume),
            2 => Some(Event::SaveInstanceState),
            3 => Some(Event::Pause),
            4 => Some(Event::Stop),
            5 => Some(Event::Destroy),
            6 => Some(Event::LowMemory),
            7 => Some(Event::WindowLostFocus),
            8 => Some(Event::WindowHasFocus),
            _ => None,
        }
    }

    /// The event for a change of window focus: lost when the flag is 0.
    pub fn focus(has_focus: u8) -> (e: Event)
        ensures
            e == if has_focus == 0 { Event::WindowLostFocus } else { Event::WindowHasFocus },
    {
        if has_focus == 0 {
            Event::WindowLostFocus
        } else {
            Event::WindowHasFocus
        }
    }
}

/// Every event read back from the byte written for it is that event, and
/// distinct events are written as distinct bytes.
pub proof fn lemma_event_code_round_trip(a: Event, b: Event)
    ensures
        event_code(a) <= 8,
        event_code(a) == event_code(b) ==> a == b,
{
}

} // verus!
