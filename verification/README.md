# maolan_video

The video runtime of an audio workstation. The library in `src/` decides which frames of the clips on
the timeline are decoded, which decoder does it, where frames are kept and what is shown; it is verified
with Verus. `app/` is the ordinary Rust around it: FFmpeg, the widgets, files, the environment and locks.

## How the parts work together

Decoding is a dialogue. The library hands out an action (seek, read a packet, receive a frame, make a
thumbnail), `app/` performs it and hands back an event. `decode` searches the frame of a sample,
`preview` and `hardware_preview` make strips of thumbnails, and `producer` tries hardware first and falls
back to software, clip by clip.

A backend keeps one request per clip and kind of frame. While a decode of a clip runs, further requests
only replace what is asked for; the end of the decode starts the next one with the latest request. Results
of decodes that are not wanted any more are dropped.

## What is proved

Each function carries a contract over a model of its type. Laws that span functions are public proof
functions, among them:

- the last request of a clip is decoded last, and one decode of a clip runs at a time
  (`lane::last_request_is_decoded_last`);
- a decoded frame is what the clip is shown with (`vulkan::decoded_frame_is_shown`);
- each frame has a texture of its own, and none is left behind (`vulkan::operations_keep_backend_sound`);
- a search ends with the first frame that reaches its target
  (`decode::search_gives_first_frame_that_reaches`);
- a clip key is read back as it was written (`clip_key::clip_key_reads_back`);
- a strip shows every thumbnail unchanged (`frame::strip_shows_every_thumb`), of the first frames that
  are due for its samples (`hardware_preview::strip_shows_first_due_frames`);
- a texture handle is given out once (`registry::handles_are_given_out_once`).

The library trusts one outside function, `iced::widget::image::Handle::from_rgba`, which `presenter`
calls.
