//! The instructional texts bundled with a narration package.
use vstd::prelude::*;
use vstd::string::*;

use crate::chars::{push_str, string_of};
use crate::mlt::file_name_of;

verus! {

/// The package's top-level README for the narration `audio_name`; the lines
/// about captions say whether the package has any.
pub open spec fn root_readme(audio_name: Seq<char>, has_subtitles: bool) -> Seq<char> {
    r#"VoxWeave Narration Package
==========================

This package contains all the assets needed to create a narrated video
with cyberpunk-styled subtitles.

📁 PACKAGE CONTENTS
-------------------
audio/          - Generated narration audio file
subtitles/      - Synchronized subtitle file (SRT format)"#@ + (if has_subtitles { Seq::empty() } else { " (disabled)"@ }) + r#"
video/          - Placeholder for your background video
project.mlt     - MLT project file (open in Kdenlive or compatible editor)
README.txt      - This file

🎬 QUICK START
--------------
1. Extract this ZIP file to a folder
2. Add your 5-second video to the video/ folder
   - Rename it to: background.mp4 (or edit project.mlt to match your filename)
   - Supported formats: MP4, MOV, WebM
   - The video will loop for the duration of the audio

3. Open project.mlt in an MLT-compatible video editor:
   - Kdenlive (recommended): https://kdenlive.org
   - Shotcut: https://shotcut.org
   - OpenShot: https://openshot.org

4. Review the composition:
   - Video track: Your background video (looped)
   - Audio track: "#@ + audio_name
        + r#"
   - Subtitle track: Cyberpunk-styled captions"#@ + (if has_subtitles { Seq::empty() } else { " (none)"@ }) + r#"

5. Render/export the final video

🎨 SUBTITLE STYLING
-------------------
The subtitles feature a cyberpunk/Blade Runner aesthetic:
- Neon cyan text with purple outlines
- Monospace font for technical feel
- Holographic glow effects
- Asymmetric left-aligned layout

You can customize the styling in your MLT editor if desired.

📋 TECHNICAL SPECS
------------------
Audio: 48kHz WAV, stereo
Subtitles: SRT format with timing synchronized to audio
MLT Profile: HD 1080p 30fps (will auto-adjust to your video)
Color Space: sRGB with HDR hints for neon colors

💡 TIPS
-------
- Use a dark, atmospheric 5-second video for best results
- The video will seamlessly loop - choose something that loops well
- For boomerang effects, render your video with forward+reverse motion
- Adjust subtitle glow intensity in your editor for different moods

🔧 TROUBLESHOOTING
------------------
If the MLT project doesn't load:
1. Check that your video file is in video/background.mp4
2. Ensure you're using a recent version of Kdenlive or Shotcut
3. Try manually importing the audio and subtitle files

For more help, visit: https://github.com/yourusername/voxweave

Generated by VoxWeave - Text-to-Speech Narration Pipeline
"#@
}

/// The README of the package's `video/` folder.
pub open spec fn video_readme() -> Seq<char> {
    r#"📹 Background Video Instructions
================================

This folder is where you should place your background video.

REQUIRED FILE
-------------
Name your video file: background.mp4

Alternatively, you can use a different name and update the project.mlt file
to reference it (search for "video/background.mp4" and replace).

VIDEO REQUIREMENTS
------------------
✓ Duration: 5 seconds (will loop automatically)
✓ Format: MP4, MOV, or WebM
✓ Resolution: Any (MLT will scale to match project)
✓ Recommended: 1080p or higher for best quality

SUGGESTED CONTENT
-----------------
For cyberpunk narration videos, consider:
- Futuristic cityscape with neon lights
- Abstract tech patterns or data visualizations
- Atmospheric sci-fi environments
- Looping animations or cinemagraphs

BOOMERANG EFFECT
----------------
For a smooth boomerang loop:
1. Record 2.5 seconds of footage
2. Reverse and append to create 5-second clip
3. Ensure first and last frames match for seamless loop

WHERE TO GET VIDEOS
-------------------
- Generate with AI: Runway, Pika Labs, Stable Video Diffusion
- Stock footage: Pexels, Pixabay, Videezy (filter for looping)
- Create your own: Blender, After Effects, DaVinci Resolve

Once you've added your video, open project.mlt in Kdenlive!
"#@
}

/// The package README for the audio file at `audio_path` (named by its file
/// name, or `narration.wav` when the path has none).
pub fn generate_root_readme(audio_path: &str, has_subtitles: bool) -> (r: String)
    ensures
        r@ == root_readme(
            match file_name_of(audio_path@) { Some(n) => n, None => "narration.wav"@ },
            has_subtitles,
        ),
{
    let name = match crate::mlt::file_name(audio_path) {
        Some(n) => n,
        None => String::from_str("narration.wav"),
    };
    let mut out: Vec<char> = Vec::new();
    push_str(&mut out, r#"VoxWeave Narration Package
==========================

This package contains all the assets needed to create a narrated video
with cyberpunk-styled subtitles.

📁 PACKAGE CONTENTS
-------------------
audio/          - Generated narration audio file
subtitles/      - Synchronized subtitle file (SRT format)"#);
    if !has_subtitles {
        push_str(&mut out, " (disabled)");
    }
    push_str(&mut out, r#"
video/          - Placeholder for your background video
project.mlt     - MLT project file (open in Kdenlive or compatible editor)
README.txt      - This file

🎬 QUICK START
--------------
1. Extract this ZIP file to a folder
2. Add your 5-second video to the video/ folder
   - Rename it to: background.mp4 (or edit project.mlt to match your filename)
   - Supported formats: MP4, MOV, WebM
   - The video will loop for the duration of the audio

3. Open project.mlt in an MLT-compatible video editor:
   - Kdenlive (recommended): https://kdenlive.org
   - Shotcut: https://shotcut.org
   - OpenShot: https://openshot.org

4. Review the composition:
   - Video track: Your background video (looped)
   - Audio track: "#);
    push_str(&mut out, name.as_str());
    push_str(&mut out, r#"
   - Subtitle track: Cyberpunk-styled captions"#);
    if !has_subtitles {
        push_str(&mut out, " (none)");
    }
    push_str(&mut out, r#"

5. Render/export the final video

🎨 SUBTITLE STYLING
-------------------
The subtitles feature a cyberpunk/Blade Runner aesthetic:
- Neon cyan text with purple outlines
- Monospace font for technical feel
- Holographic glow effects
- Asymmetric left-aligned layout

You can customize the styling in your MLT editor if desired.

📋 TECHNICAL SPECS
------------------
Audio: 48kHz WAV, stereo
Subtitles: SRT format with timing synchronized to audio
MLT Profile: HD 1080p 30fps (will auto-adjust to your video)
Color Space: sRGB with HDR hints for neon colors

💡 TIPS
-------
- Use a dark, atmospheric 5-second video for best results
- The video will seamlessly loop - choose something that loops well
- For boomerang effects, render your video with forward+reverse motion
- Adjust subtitle glow intensity in your editor for different moods

🔧 TROUBLESHOOTING
------------------
If the MLT project doesn't load:
1. Check that your video file is in video/background.mp4
2. Ensure you're using a recent version of Kdenlive or Shotcut
3. Try manually importing the audio and subtitle files

For more help, visit: https://github.com/yourusername/voxweave

Generated by VoxWeave - Text-to-Speech Narration Pipeline
"#);
    proof {
        assert(out@ =~= root_readme(name@, has_subtitles));
    }
    string_of(&out)
}

/// The README of the `video/` folder: where the background video goes and
/// what it should be like.
pub fn generate_video_readme() -> (r: String)
    ensures
        r@ == video_readme(),
{
    String::from_str(r#"📹 Background Video Instructions
================================

This folder is where you should place your background video.

REQUIRED FILE
-------------
Name your video file: background.mp4

Alternatively, you can use a different name and update the project.mlt file
to reference it (search for "video/background.mp4" and replace).

VIDEO REQUIREMENTS
------------------
✓ Duration: 5 seconds (will loop automatically)
✓ Format: MP4, MOV, or WebM
✓ Resolution: Any (MLT will scale to match project)
✓ Recommended: 1080p or higher for best quality

SUGGESTED CONTENT
-----------------
For cyberpunk narration videos, consider:
- Futuristic cityscape with neon lights
- Abstract tech patterns or data visualizations
- Atmospheric sci-fi environments
- Looping animations or cinemagraphs

BOOMERANG EFFECT
----------------
For a smooth boomerang loop:
1. Record 2.5 seconds of footage
2. Reverse and append to create 5-second clip
3. Ensure first and last frames match for seamless loop

WHERE TO GET VIDEOS
-------------------
- Generate with AI: Runway, Pika Labs, Stable Video Diffusion
- Stock footage: Pexels, Pixabay, Videezy (filter for looping)
- Create your own: Blender, After Effects, DaVinci Resolve

Once you've added your video, open project.mlt in Kdenlive!
"#)
}

} // verus!
