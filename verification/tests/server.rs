use esp_gpio_viewer::capabilities::Chip;
use esp_gpio_viewer::hwinfo::Hardware;
use esp_gpio_viewer::reader::Register;
use esp_gpio_viewer::server::{
    after_read, baseline_frame, contains_subslice, default_partitions, frame_event, next_action,
    respond, route_of, route_request, serve_rest, sse_event, ConnectionAction, ConnectionEvent,
    ContentType, HeadStep, Response, Route, ServerState, Status, DEFAULT_PORT, SSE_HEADERS,
};
use esp_gpio_viewer::text::drop_unfinished;
use esp_gpio_viewer::{GpioViewer, PinMode, PinType};

fn viewer() -> GpioViewer {
    <GpioViewer>::builder()
        .sampling_interval_ms(250)
        .register(2, PinMode::Output, PinType::Digital)
        .adc(34)
        .analog_source(|_gpio| 4095)
        .free_heap_source(|| 2048)
        .free_psram_source(|| 1536)
        .build()
}

fn hardware() -> Hardware {
    Hardware {
        cpu_frequency: 160,
        ..Hardware::unknown()
    }
}

fn answer(route: Route) -> Response {
    let viewer = viewer();
    let events = ();
    let state = ServerState::new(&viewer, "10.0.0.7", "n/a", &events, default_partitions());
    serve_rest(route, &state, Chip::Esp32, &hardware)
}

fn json(route: Route) -> String {
    let response = answer(route);
    assert_eq!(response.status, Status::Success);
    assert_eq!(response.content_type, ContentType::Json);
    response.body.as_str().to_string()
}

#[test]
fn paths_are_routed() {
    let routes = [
        ("/", Route::Index),
        ("/release", Route::Release),
        ("/sampling", Route::Sampling),
        ("/free_psram", Route::FreePsram),
        ("/pinmodes", Route::PinModes),
        ("/pinfunctions", Route::PinFunctions),
        ("/espinfo", Route::EspInfo),
        ("/partition", Route::Partition),
        ("/events", Route::Events),
        ("", Route::NotFound),
        ("/Release", Route::NotFound),
        ("/release/", Route::NotFound),
        ("release", Route::NotFound),
    ];
    for (path, route) in routes {
        assert_eq!(route_of(Some(path)), route);
        if !path.is_empty() {
            let request = format!("GET {} HTTP/1.1\r\nHost: x\r\n\r\n", path);
            assert_eq!(route_request(request.as_bytes()), route);
            let request = format!("GET {}?a=b HTTP/1.1\r\n\r\n", path);
            assert_eq!(route_request(request.as_bytes()), route);
        }
    }
    assert_eq!(route_of(None), Route::NotFound);
}

#[test]
fn malformed_requests_are_not_found() {
    assert_eq!(route_request(b""), Route::NotFound);
    assert_eq!(route_request(b"POST / HTTP/1.1\r\n\r\n"), Route::NotFound);
    assert_eq!(route_request(b"GET /release HTTP/1.1\r\nX: \xff\r\n\r\n"), Route::NotFound);
    assert_eq!(
        route_request("GET /release HTTP/1.1\r\nX: é\r\n\r\n".as_bytes()),
        Route::Release
    );
}

#[test]
fn truncated_request_is_still_routed() {
    assert_eq!(route_request(b"GET /release HTTP/1.1\r\nHost: 10."), Route::Release);
    assert_eq!(route_request(b"GET /release"), Route::Release);
}

#[test]
fn request_cut_within_a_character_is_still_routed() {
    // The first bytes of characters of two, three and four bytes.
    for cut in [
        &b"\xC3"[..],
        &b"\xE2"[..],
        &b"\xE2\x82"[..],
        &b"\xF0"[..],
        &b"\xF0\x9F"[..],
        &b"\xF0\x9F\x98"[..],
    ] {
        let mut request = "GET /release HTTP/1.1\r\nX: é".as_bytes().to_vec();
        request.extend_from_slice(cut);
        assert_eq!(route_request(&request), Route::Release);
        assert_eq!(
            drop_unfinished(&request),
            "GET /release HTTP/1.1\r\nX: é".as_bytes()
        );
        // The request line itself has to be whole.
        let mut request = b"GET /release".to_vec();
        request.extend_from_slice(cut);
        assert_eq!(route_request(&request), Route::NotFound);
    }
}

#[test]
fn unfinished_character_behind_the_headers_is_malformed() {
    assert_eq!(route_request(b"GET / HTTP/1.1\r\n\r\n"), Route::Index);
    assert_eq!(route_request(b"GET / HTTP/1.1\r\n\r\n\xC3"), Route::NotFound);
    assert_eq!(
        route_request(b"GET / HTTP/1.1\r\nX: y\r\n\r\nbody\xE2\x82"),
        Route::NotFound
    );
    assert_eq!(route_request(b"GET / HTTP/1.1\r\nX: y\r\n\xC3"), Route::Index);
}

#[test]
fn bytes_that_begin_no_character_are_malformed() {
    for end in [
        &b"\x80"[..],
        &b"\xC1"[..],
        &b"\xF5"[..],
        &b"\xFF"[..],
        &b"\xE0\x80"[..],
        &b"\xED\xA0"[..],
        &b"\xF0\x80"[..],
        &b"\xF4\x90"[..],
        &b"\xF0\x9Fa"[..],
        &b"\xC3\r"[..],
    ] {
        let mut request = b"GET /release HTTP/1.1\r\nX: ".to_vec();
        request.extend_from_slice(end);
        assert_eq!(route_request(&request), Route::NotFound);
        assert_eq!(drop_unfinished(&request), &request[..]);
    }
    assert_eq!(drop_unfinished("€".as_bytes()), "€".as_bytes());
    assert!(drop_unfinished(b"").is_empty());
}

#[test]
fn index_is_html() {
    let response = answer(Route::Index);
    assert_eq!(response.status, Status::Success);
    assert_eq!(response.content_type, ContentType::Html);
    assert!(response.body.as_str().contains(
        "window.gpio_settings = {ip:'10.0.0.7',port:'8080',freeSketchRam:'n/a'};"
    ));
    assert_eq!(
        response.header().as_str(),
        format!(
            "HTTP/1.1 200 OK\r\nContent-Type: text/html\r\nContent-Length: {}\r\nConnection: close\r\n\r\n",
            response.body.as_str().len()
        )
    );
}

#[test]
fn json_routes_are_answered() {
    assert_eq!(json(Route::Release), "{\"release\": \"1.7.1\"}");
    assert_eq!(json(Route::Sampling), "{\"sampling\": \"250\"}");
    assert_eq!(json(Route::FreePsram), "{\"sampling\": \"250 1.50 KB\"}");
    assert_eq!(
        json(Route::PinModes),
        "[{\"pin\":\"2\",\"mode\":\"3\"},{\"pin\":\"34\",\"mode\":\"192\"}]"
    );
    assert_eq!(
        json(Route::Partition),
        "[{\"label\":\"nvs\",\"type\":1,\"subtype\":2,\"address\":\"0x9000\",\"size\":20480},\
         {\"label\":\"otadata\",\"type\":1,\"subtype\":0,\"address\":\"0xe000\",\"size\":8192},\
         {\"label\":\"app0\",\"type\":0,\"subtype\":16,\"address\":\"0x10000\",\"size\":1310720}]"
    );
    assert!(json(Route::PinFunctions).contains("{\"function\":\"Touch\",\"pin\":33}"));
    let info = json(Route::EspInfo);
    assert!(info.starts_with("{\"chip_model\":\"ESP32\",\"cores_count\":\"2\","));
    assert!(info.contains("\"cpu_frequency\":\"160\""));
    assert!(info.contains("\"free_psram\":1536,"));
    assert!(info.contains("\"free_heap\":2048,"));
}

#[test]
fn unknown_routes_are_not_found() {
    let response = answer(Route::NotFound);
    assert_eq!(response.status, Status::NotFound);
    assert_eq!(response.content_type, ContentType::Plain);
    assert_eq!(response.body.as_str(), "Not Found");
    assert_eq!(
        response.header().as_str(),
        "HTTP/1.1 404 Not Found\r\nContent-Type: text/plain\r\nContent-Length: 9\r\nConnection: close\r\n\r\n"
    );
}

#[test]
fn sources_are_asked_only_where_needed() {
    let viewer = <GpioViewer>::builder()
        .free_heap_source(|| panic!("not asked for"))
        .free_psram_source(|| panic!("not asked for"))
        .build();
    let events = ();
    let state = ServerState::new(&viewer, "", "", &events, &[]);
    let read_hardware = || -> Hardware { panic!("not asked for") };
    for route in [
        Route::Index,
        Route::Release,
        Route::Sampling,
        Route::PinModes,
        Route::PinFunctions,
        Route::Partition,
        Route::NotFound,
    ] {
        serve_rest(route, &state, Chip::Host, &read_hardware);
    }
    let response = respond(
        Route::FreePsram,
        &state,
        Chip::Host,
        Hardware::unknown(),
        0,
        None,
    );
    assert_eq!(response.body.as_str(), "{\"sampling\": \"100 No PSRAM\"}");
}

#[test]
fn state_truncates_its_texts() {
    let viewer = <GpioViewer>::builder().build();
    let events = 5u8;
    let state = ServerState::new(
        &viewer,
        "255.255.255.2555",
        "12345678901234567",
        &events,
        default_partitions(),
    );
    assert_eq!(state.ip.as_str(), "255.255.255.255");
    assert_eq!(state.free_sketch_ram.as_str(), "1234567890123456");
    assert_eq!(*state.events, 5);
    assert_eq!(state.partitions.len(), 3);
    assert_eq!(state.viewer.port, DEFAULT_PORT);
}

#[test]
fn event_has_a_name_and_data() {
    assert_eq!(
        sse_event("free_heap", "1.00 KB").concat(),
        "event: free_heap\ndata: 1.00 KB\n\n"
    );
    assert_eq!(
        SSE_HEADERS,
        "HTTP/1.1 200 OK\r\n\
         Content-Type: text/event-stream\r\n\
         Cache-Control: no-cache\r\n\
         Connection: keep-alive\r\n\r\n"
    );
}

#[test]
fn baseline_holds_every_pin() {
    let viewer = viewer();
    let low = |_register: Register| 0u32;
    let frame = baseline_frame(&viewer, Chip::Esp32, &low);
    assert_eq!(
        frame_event(&frame).concat(),
        "event: gpio-state\ndata: {\"2\": {\"s\": 0, \"v\": 0, \"t\": 0}, \
         \"34\": {\"s\": 255, \"v\": 4095, \"t\": 2}}\n\n"
    );
}

#[test]
fn parts_are_found() {
    assert!(contains_subslice(b"abcd", b"bc"));
    assert!(contains_subslice(b"abcd", b"abcd"));
    assert!(contains_subslice(b"aab", b"ab"));
    assert!(!contains_subslice(b"abcd", b"bd"));
    assert!(!contains_subslice(b"abc", b"abcd"));
    assert!(!contains_subslice(b"abcd", b""));
    assert!(!contains_subslice(b"", b"a"));
}

#[test]
fn request_is_read_to_the_end_of_its_headers() {
    let mut buffer = [0u8; 32];
    buffer[..18].copy_from_slice(b"GET / HTTP/1.1\r\n\r\n");
    assert_eq!(after_read(&buffer, 0, Ok(17)), HeadStep::More(17));
    assert_eq!(after_read(&buffer, 17, Ok(1)), HeadStep::Complete(18));
    assert_eq!(after_read(&buffer, 0, Ok(20)), HeadStep::Complete(20));
}

#[test]
fn request_is_cut_at_the_buffer() {
    let buffer = [b'a'; 8];
    assert_eq!(after_read(&buffer, 3, Ok(4)), HeadStep::More(7));
    assert_eq!(after_read(&buffer, 3, Ok(5)), HeadStep::Complete(8));
}

#[test]
fn request_may_end_early_or_fail() {
    let buffer = [b'a'; 8];
    assert_eq!(after_read(&buffer, 3, Ok(0)), HeadStep::Complete(3));
    assert_eq!(after_read(&buffer, 0, Ok(0)), HeadStep::Failed);
    assert_eq!(after_read(&buffer, 3, Err(())), HeadStep::Failed);
}

#[test]
fn connection_is_drained_before_the_next() {
    assert_eq!(next_action(ConnectionEvent::Accepted), ConnectionAction::Serve);
    assert_eq!(next_action(ConnectionEvent::Served), ConnectionAction::Close);
    assert_eq!(next_action(ConnectionEvent::Closed), ConnectionAction::Drain);
    assert_eq!(next_action(ConnectionEvent::Drained(64)), ConnectionAction::Drain);
    assert_eq!(next_action(ConnectionEvent::Drained(0)), ConnectionAction::Accept);
    assert_eq!(next_action(ConnectionEvent::DrainFailed), ConnectionAction::Accept);
    assert_eq!(next_action(ConnectionEvent::AcceptFailed), ConnectionAction::Abort);
    assert_eq!(next_action(ConnectionEvent::Aborted), ConnectionAction::Accept);
}
