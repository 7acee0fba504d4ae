use doh::ops::{FilesetData, Notice, RawFileData, RemoteFile};
use doh::timestamp::Tm;
use doh::util::parse_rfc3339;

fn local(tm: &Tm) -> Tm {
    let there = time::Tm {
        tm_sec: tm.tm_sec,
        tm_min: tm.tm_min,
        tm_hour: tm.tm_hour,
        tm_mday: tm.tm_mday,
        tm_mon: tm.tm_mon,
        tm_year: tm.tm_year,
        tm_wday: tm.tm_wday,
        tm_yday: tm.tm_yday,
        tm_isdst: tm.tm_isdst,
        tm_utcoff: tm.tm_utcoff,
        tm_nsec: tm.tm_nsec,
    }
    .to_local();
    Tm {
        tm_sec: there.tm_sec,
        tm_min: there.tm_min,
        tm_hour: there.tm_hour,
        tm_mday: there.tm_mday,
        tm_mon: there.tm_mon,
        tm_year: there.tm_year,
        tm_wday: there.tm_wday,
        tm_yday: there.tm_yday,
        tm_isdst: there.tm_isdst,
        tm_utcoff: there.tm_utcoff,
        tm_nsec: there.tm_nsec,
    }
}

fn raw(name: &str, is_file: bool, size: u64, modified: &str) -> RawFileData {
    RawFileData {
        mime_type: if is_file { "text/html" } else { "text/directory" }.to_string(),
        name: name.to_string(),
        last_modified: parse_rfc3339(modified).unwrap(),
        size,
        is_file,
    }
}

fn names(entries: &[RemoteFile]) -> Vec<String> {
    entries.iter().map(|e| e.full_name.clone()).collect()
}

#[test]
fn from_response_of_a_directory() {
    let listed = RemoteFile::from_response(&FilesetData {
        writes_supported: false,
        is_root: false,
        is_file: false,
        files: vec![
            raw("data", false, 0, "2012-02-22T14:53:18.42Z"),
            raw("index.html", true, 2297, "2012-02-22T15:23:18Z"),
        ],
    });
    assert_eq!(
        listed,
        vec![
            RemoteFile { full_name: "../".to_string(), size: None, human_size: None, last_modified: None },
            RemoteFile {
                full_name: "data/".to_string(),
                size: None,
                human_size: None,
                last_modified: Some(local(&parse_rfc3339("2012-02-22T14:53:18.42Z").unwrap())),
            },
            RemoteFile {
                full_name: "index.html".to_string(),
                size: Some(2297),
                human_size: Some("2.2KiB".to_string()),
                last_modified: Some(local(&parse_rfc3339("2012-02-22T15:23:18Z").unwrap())),
            },
        ]
    );
}

#[test]
fn from_response_of_a_file_is_empty() {
    let listed = RemoteFile::from_response(&FilesetData {
        writes_supported: true,
        is_root: false,
        is_file: true,
        files: vec![raw("index.html", true, 2297, "2012-02-22T15:23:18Z")],
    });
    assert_eq!(listed, vec![]);
}

#[test]
fn from_response_of_a_root_has_no_parent_entry() {
    let listed = RemoteFile::from_response(&FilesetData {
        writes_supported: true,
        is_root: true,
        is_file: false,
        files: vec![raw("a.txt", true, 1, "2012-02-22T15:23:18Z")],
    });
    assert_eq!(names(&listed), vec!["a.txt".to_string()]);
    let empty = RemoteFile::from_response(&FilesetData {
        writes_supported: true,
        is_root: true,
        is_file: false,
        files: vec![],
    });
    assert_eq!(empty, vec![]);
}

#[test]
fn from_response_puts_the_parent_entry_first() {
    let listed = RemoteFile::from_response(&FilesetData {
        writes_supported: true,
        is_root: false,
        is_file: false,
        files: vec![],
    });
    assert_eq!(listed.len(), 1);
    assert_eq!(listed[0].full_name, "../");
    assert_eq!(listed[0].size, None);
    assert_eq!(listed[0].human_size, None);
    assert_eq!(listed[0].last_modified, None);
    assert_eq!(listed[0], RemoteFile::parent());
}

#[test]
fn from_response_puts_directories_first_in_the_servers_order() {
    let listed = RemoteFile::from_response(&FilesetData {
        writes_supported: false,
        is_root: false,
        is_file: false,
        files: vec![
            raw("z.txt", true, 10, "2012-02-22T15:23:18Z"),
            raw("m", false, 0, "2012-02-22T15:23:18Z"),
            raw("a.txt", true, 20, "2012-02-22T15:23:18Z"),
            raw("b", false, 0, "2012-02-22T15:23:18Z"),
            raw("c.txt", true, 30, "2012-02-22T15:23:18Z"),
        ],
    });
    assert_eq!(
        names(&listed),
        vec!["../", "m/", "b/", "z.txt", "a.txt", "c.txt"]
            .into_iter()
            .map(|n| n.to_string())
            .collect::<Vec<_>>()
    );
    assert_eq!(listed.len(), 5 + 1);
    for entry in &listed {
        assert_eq!(entry.size.is_none(), entry.full_name.ends_with('/'));
        assert_eq!(entry.size.is_some(), entry.human_size.is_some());
    }
}

#[test]
fn list_takes_the_local_times_as_given() {
    let resp = FilesetData {
        writes_supported: false,
        is_root: true,
        is_file: false,
        files: vec![
            raw("f", true, 1024, "2012-02-22T15:23:18Z"),
            raw("d", false, 7, "2012-02-22T15:23:18Z"),
        ],
    };
    let first = parse_rfc3339("2001-01-01T01:01:01Z").unwrap();
    let listed = RemoteFile::list(&resp, &vec![Some(first), None]);
    assert_eq!(
        listed,
        vec![
            RemoteFile { full_name: "d/".to_string(), size: None, human_size: None, last_modified: None },
            RemoteFile {
                full_name: "f".to_string(),
                size: Some(1024),
                human_size: Some("1KiB".to_string()),
                last_modified: Some(first),
            },
        ]
    );
}

#[test]
fn from_one_entry() {
    let file = RemoteFile::from(&raw("index.html", true, 2297, "2012-02-22T15:23:18Z"));
    assert_eq!(file.full_name, "index.html");
    assert_eq!(file.size, Some(2297));
    assert_eq!(file.human_size, Some("2.2KiB".to_string()));
    assert_eq!(file.last_modified, Some(local(&parse_rfc3339("2012-02-22T15:23:18Z").unwrap())));
    // the local time names the day of the year, which the timestamp read does not
    assert!(file.last_modified.unwrap().tm_yday > 0);
    let directory = RemoteFile::from(&raw("data", false, 5, "2012-02-22T15:23:18Z"));
    assert_eq!(directory.full_name, "data/");
    assert_eq!(directory.size, None);
    assert_eq!(directory.human_size, None);
}

#[test]
fn with_local_time_and_clone() {
    let at = parse_rfc3339("2012-02-22T15:23:18Z").unwrap();
    let file = RemoteFile::with_local_time(&raw("a", true, 0, "2012-02-22T15:23:18Z"), Some(at));
    assert_eq!(file.human_size, Some("0B".to_string()));
    assert_eq!(file.last_modified, Some(at));
    assert_eq!(file.clone(), file);
}

#[test]
fn to_string_of_a_file() {
    let at = parse_rfc3339("2012-02-22T15:23:18Z").unwrap();
    let file = RemoteFile::with_local_time(&raw("index.html", true, 2297, "2012-02-22T15:23:18Z"), Some(at));
    assert_eq!(file.to_string(), "index.html\t2.2KiB\t2012-02-22 15:23:18");
}

#[test]
fn to_string_of_a_directory_and_of_the_parent_entry() {
    let at = parse_rfc3339("1987-01-02T03:04:05Z").unwrap();
    let directory = RemoteFile::with_local_time(&raw("data", false, 0, "2012-02-22T15:23:18Z"), Some(at));
    assert_eq!(directory.to_string(), "data/\t\t1987-01-02 03:04:05");
    let timeless = RemoteFile::with_local_time(&raw("f", true, 1, "2012-02-22T15:23:18Z"), None);
    assert_eq!(timeless.to_string(), "f\t1B\t");
    assert_eq!(RemoteFile::parent().to_string(), "../\t\t");
}

#[test]
fn local_time_of_what_every_platform_converts() {
    let server = parse_rfc3339("2012-02-22T15:23:18.25Z").unwrap();
    let shown = RemoteFile::local_time(&server).unwrap();
    assert_eq!(shown, local(&server));
    assert_eq!(shown.tm_nsec, 250000000);
    assert!((0..=11).contains(&shown.tm_mon));
    assert!((0..=6).contains(&shown.tm_wday));
    assert!((1..=31).contains(&shown.tm_mday));
}

#[test]
fn no_local_time_of_what_not_every_platform_converts() {
    for server in ["2012-02-30T00:00:00Z", "2012-06-30T23:59:60Z", "1600-01-01T00:00:00Z", "1900-06-01T00:00:00Z"] {
        assert_eq!(RemoteFile::local_time(&parse_rfc3339(server).unwrap()), None);
    }
}

#[test]
fn from_response_lists_an_entry_without_a_time_it_cannot_convert() {
    let listed = RemoteFile::from_response(&FilesetData {
        writes_supported: false,
        is_root: true,
        is_file: false,
        files: vec![
            raw("old.txt", true, 3, "1600-01-01T00:00:00Z"),
            raw("new.txt", true, 4, "2012-02-22T15:23:18Z"),
            raw("never", false, 0, "2012-02-31T00:00:00Z"),
        ],
    });
    assert_eq!(
        listed,
        vec![
            RemoteFile { full_name: "never/".to_string(), size: None, human_size: None, last_modified: None },
            RemoteFile {
                full_name: "old.txt".to_string(),
                size: Some(3),
                human_size: Some("3B".to_string()),
                last_modified: None,
            },
            RemoteFile {
                full_name: "new.txt".to_string(),
                size: Some(4),
                human_size: Some("4B".to_string()),
                last_modified: Some(local(&parse_rfc3339("2012-02-22T15:23:18Z").unwrap())),
            },
        ]
    );
    assert_eq!(listed[1].to_string(), "old.txt\t3B\t");
}

#[test]
fn notice_texts() {
    assert_eq!(Notice::Contents("http://h/a b/".to_string()).text(), "Contents of http://h/a b/:");
    assert_eq!(Notice::Status("404 Not Found".to_string()).text(), "<Got 404 Not Found...>");
    assert_eq!(
        Notice::Unparsable("EOF".to_string()).text(),
        "<Couldn't parse server response: EOF...>"
    );
    assert_eq!(
        Notice::Incompatible("http://h/".to_string()).text(),
        "<Server at http://h/ doesn't support RFSAPI.>"
    );
    assert_eq!(Notice::NotText.text(), "<Not UTF-8, select download destination>");
    assert_eq!(Notice::Refused.text(), "<Server doesn't permit write requests>");
    assert_eq!(Notice::Deleting("http://h/f".to_string()).text(), "<Deleting http://h/f...>");
    assert_eq!(
        Notice::Uploading("f.txt".to_string(), "http://h/".to_string()).text(),
        "<Uploading f.txt to http://h/...>"
    );
    assert_eq!(Notice::Downloading("/tmp/f".to_string()).text(), "<Downloading to /tmp/f...>");
    assert_eq!(Notice::Success.text(), "<Success!>");
    assert_eq!(Notice::Done.text(), "<Done!>");
}
