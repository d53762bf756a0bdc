# camera_rtsp

Serves the streams of cameras over RTSP.

The library under `src/` decides what is served, to whom and how, and Verus proves that it decides
as its contracts say:

* `format`: the encodings of a stream and the description of the pipeline that serves them;
* `source`: the sink that media data is written to, before and after there is a pipeline;
* `outputs`: the two sinks of a stream, and what is known of the stream;
* `access`: who may watch a stream, and how requests are answered;
* `server`: how viewers sign in, where the server listens, and new streams;
* `channel`, `text`: the channel that sources come over, and putting texts together.

`app/` carries the decisions out on GStreamer. It needs GStreamer and its RTSP server library.

Laws of the library are the public proof functions whose names begin with `law_`.
