use ipcmanview::mediafile::{
    parse_file_path_tags, to_num, Condition, FindNextFile, FindNextFileInfo, IpcFileStream,
};
use ipcmanview::rpc::{Error, ResponseError, ResponseKind};

#[test]
fn it_parse_file_path_tags() {
    let data = [
        (
            "/mnt/sd/2023-04-09/001/jpg/07/12/04[M][0@0][0][].jpg",
            vec!["M", "0@0", "0", ""],
        ),
        ("04[M][0@0][0][].jpg", vec!["M", "0@0", "0", ""]),
        ("04M]0@0][0][].jpg", vec!["0", ""]),
        (
            "/mnt/dvr/mmc0p2_0/2023-04-09/0/jpg/09/44/34[M][0@0][7136][0].jpg",
            vec!["M", "0@0", "7136", "0"],
        ),
        (
            "/mnt/dvr/mmc0p2_0/2023-04-09/0/jpg/09/44/34[M][0@0][7136][0.jpg",
            vec!["M", "0@0", "7136"],
        ),
        (
            "/mnt/dvr/mmc0p2_0/2023-04-09/0/jpg/09/44/34M][0@0][7136].jpg",
            vec!["0@0", "7136"],
        ),
    ];

    for (input, output) in data.into_iter() {
        let tags = parse_file_path_tags(input);
        let tags: Vec<&str> = tags.iter().map(|t| t.as_str()).collect();
        assert_eq!(tags, output);
    }
}

fn new_info(file_path: &str, start_time: i64, end_time: i64, kind: &str) -> FindNextFileInfo {
    FindNextFileInfo {
        channel: 0,
        start_time,
        end_time,
        length: 0,
        kind: kind.to_string(),
        file_path: file_path.to_string(),
        duration: Some(0),
        disk: 0,
        video_stream: "".to_string(),
        flags: vec![],
        events: vec![],
        cluster: Some(0),
        partition: Some(0),
        pic_index: Some(0),
        repeat: Some(0),
        work_dir: Some("".to_string()),
        work_dir_sn: Some(0),
    }
}

#[test]
fn it_find_next_file_info_unique_time() {
    let start_time: i64 = 1_680_993_600;
    let end_time = start_time + 5;

    let neq = [
        (
            new_info(
                "/mnt/sd/2023-04-09/001/jpg/07/12/04[M][0@0][0][].jpg",
                start_time,
                end_time,
                "jpg",
            ),
            new_info(
                "/mnt/sd/2023-04-09/001/jpg/07/12/04[M][0@0][0][1].jpg",
                start_time,
                end_time,
                "jpg",
            ),
        ),
        (
            new_info(
                "/mnt/sd/2023-04-09/001/jpg/07/12/04[M][0@0][0][].jpg",
                start_time,
                end_time,
                "dav",
            ),
            new_info(
                "/mnt/sd/2023-04-09/001/jpg/07/12/04[M][0@0][0][].jpg",
                start_time,
                end_time,
                "jpg",
            ),
        ),
    ];

    for (input, output) in neq.into_iter() {
        assert_ne!(input.unique_time(), output.unique_time());
    }

    let eq = [(
        new_info(
            "/mnt/sd/2023-04-09/001/jpg/07/12/04[M][0@0][0][].jpg",
            start_time,
            end_time,
            "jpg",
        ),
        new_info(
            "/mnt/sd/2023-04-09/001/jpg/07/12/04[M][0@0][0][].jpg",
            start_time,
            end_time,
            "jpg",
        ),
    )];

    for (input, output) in eq.into_iter() {
        assert_eq!(input.unique_time(), output.unique_time());
    }
}

#[test]
fn unique_time_writes_offset_into_milliseconds() {
    let info = new_info("a[M][0@0][7][3].jpg", 100, 105, "");
    // Tags 7 and 3 sum to 10; an empty type adds nothing.
    assert_eq!(info.unique_time(), (100_010, 105_010));
}

#[test]
fn to_num_defaults_to_zero() {
    assert_eq!(to_num(None), 0);
    assert_eq!(to_num(Some(&"".to_string())), 0);
    assert_eq!(to_num(Some(&"12x".to_string())), 0);
    assert_eq!(to_num(Some(&"99999999999999".to_string())), 0);
    assert_eq!(to_num(Some(&"7136".to_string())), 7136);
    assert_eq!(to_num(Some(&"+12".to_string())), 12);
}

#[test]
fn condition_video_and_picture_restrict_types() {
    let c = Condition::new(0, 10);
    assert_eq!(c.types, vec!["dav".to_string(), "jpg".to_string()]);
    let v = Condition::new(0, 10).video();
    assert_eq!(v.types, vec!["dav".to_string()]);
    let p = Condition::new(0, 10).picture();
    assert_eq!(p.types, vec!["jpg".to_string()]);
    assert_eq!(
        p.flags,
        vec!["Timing".to_string(), "Event".to_string(), "Event".to_string()]
    );
}

#[test]
fn stream_ends_on_short_page_and_keeps_first_error() {
    let mut stream = IpcFileStream::begin(7, Ok(true)).unwrap();
    assert!(!stream.closed);

    // A full page keeps the stream open.
    let full: Vec<FindNextFileInfo> = (0..64).map(|i| new_info("x[][][][]", i, i, "jpg")).collect();
    let out = stream.apply_next(Ok(FindNextFile { found: 64, infos: Some(full) }));
    assert_eq!(out.unwrap().len(), 64);
    assert!(!stream.closed);

    // A short page ends it.
    let short: Vec<FindNextFileInfo> = vec![new_info("x[][][][]", 1, 1, "jpg")];
    let out = stream.apply_next(Ok(FindNextFile { found: 1, infos: Some(short) }));
    assert_eq!(out.unwrap().len(), 1);
    assert!(stream.closed);
    assert!(stream.error.is_none());

    // An error mid-stream is remembered.
    let mut failing = IpcFileStream::begin(8, Ok(true)).unwrap();
    let out = failing.apply_next(Err(Error::Parse("bad".to_string())));
    assert!(out.is_none());
    assert!(failing.closed);
    assert!(matches!(failing.error, Some(Error::Parse(_))));
}

#[test]
fn stream_no_data_means_empty_not_fatal() {
    let err = Error::Response(ResponseError {
        code: 285409284,
        message: "no data".to_string(),
        kind: ResponseKind::NoData,
    });
    let stream = IpcFileStream::begin(3, Err(err)).unwrap();
    assert!(stream.closed);
    assert!(stream.error.is_none());

    let other = Error::Response(ResponseError {
        code: 268894209,
        message: "bad".to_string(),
        kind: ResponseKind::InvalidRequest,
    });
    assert!(IpcFileStream::begin(3, Err(other)).is_err());
}
