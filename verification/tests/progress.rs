use cache_action::byte_size::HumanReadableByteSize;
use cache_action::event_loop::{ActionReport, HandlePathError, PathOutcome};
use cache_action::protocol::StoreDir;
use cache_action::real_drain_progress_reporter::{
    HandlePathOutcome, RealDrainProgressReporter,
};
use cache_action::store_path::{StoreBasename, StorePath};

#[test]
fn formats_binary_byte_sizes() {
    assert_eq!(HumanReadableByteSize(0).to_string(), "0 B");
    assert_eq!(HumanReadableByteSize(1023).to_string(), "1023 B");
    assert_eq!(HumanReadableByteSize(1024).to_string(), "1.0 KiB");
    assert_eq!(HumanReadableByteSize(1536).to_string(), "1.5 KiB");
    assert_eq!(HumanReadableByteSize(10 * 1024).to_string(), "10 KiB");
    assert_eq!(HumanReadableByteSize(1024 * 1024).to_string(), "1.0 MiB");
}

#[test]
fn formats_byte_sizes_that_are_rounded() {
    assert_eq!(HumanReadableByteSize(10239).to_string(), "10.0 KiB");
    assert_eq!(HumanReadableByteSize(10 * 1024 + 512).to_string(), "10 KiB");
    assert_eq!(HumanReadableByteSize(11 * 1024 + 512).to_string(), "12 KiB");
    assert_eq!(HumanReadableByteSize(1024 * 1024 - 1).to_string(), "1024 KiB");
    assert_eq!(HumanReadableByteSize(u64::MAX).to_string(), "16 EiB");
}

#[test]
fn formats_byte_sizes_like_floats() {
    let mut sizes = vec![0, 1, u64::MAX];
    for shift in 0..64 {
        for offset in 0..200u64 {
            sizes.push((1u64 << shift).wrapping_add(offset * offset));
            sizes.push((1u64 << shift).wrapping_sub(offset));
            sizes.push((1u64 << shift) + ((1u64 << shift) / 20) * (offset % 20));
        }
    }
    let mut state = 1u64;
    for i in 0..20_000u32 {
        state = state
            .wrapping_mul(6364136223846793005)
            .wrapping_add(1442695040888963407);
        sizes.push(state >> (i % 64));
    }
    for size in sizes {
        assert_eq!(HumanReadableByteSize(size).to_string(), with_floats(size));
    }
}

fn with_floats(size: u64) -> String {
    let units = ["B", "KiB", "MiB", "GiB", "TiB", "PiB", "EiB"];
    let mut value = size as f64;
    let mut unit_idx = 0;
    while unit_idx < units.len() - 1 && value >= 1024.0 {
        value /= 1024.0;
        unit_idx += 1;
    }
    if unit_idx == 0 {
        format!("{} {}", size, units[unit_idx])
    } else if value >= 10.0 {
        format!("{value:.0} {}", units[unit_idx])
    } else {
        format!("{value:.1} {}", units[unit_idx])
    }
}

#[test]
fn reports_paths_left_to_handle() {
    let mut reporter = RealDrainProgressReporter::new();
    assert!(reporter.report_paths_left_to_handle(0).is_none());
    assert_eq!(
        reporter.report_paths_left_to_handle(1).unwrap(),
        "There is still 1 store path left to handle\n"
    );
    assert_eq!(
        reporter.report_paths_left_to_handle(12).unwrap(),
        "There are still 12 store paths left to handle\n"
    );
}

#[test]
fn reports_handled_paths() {
    let reporter = RealDrainProgressReporter::new();
    let path = path("foo");
    assert_eq!(
        reporter.report_path_handling_outcome(
            &path,
            HandlePathOutcome::PushedNarInfo { num_bytes: 3 },
        ),
        "Pushed /nix/store/aaaa-foo\n"
    );
    assert_eq!(
        reporter.report_path_handled(&path, &Ok(PathOutcome::Pushed { num_bytes: 3 })),
        "Pushed /nix/store/aaaa-foo\n"
    );
    assert_eq!(
        reporter.report_path_handled(&path, &Ok(PathOutcome::InCache)),
        "Skipped /nix/store/aaaa-foo\n"
    );
    assert_eq!(
        reporter.report_path_handled(&path, &Ok(PathOutcome::InUpstreamCache)),
        "Skipped /nix/store/aaaa-foo\n"
    );
    assert_eq!(
        reporter.report_path_handled(
            &path,
            &Err(HandlePathError::WriteNarWroteZeroBytes),
        ),
        "Failed handling /nix/store/aaaa-foo\n"
    );
}

#[test]
fn reports_the_end_of_an_idle_daemon() {
    let reporter = RealDrainProgressReporter::new();
    assert_eq!(
        reporter.report_final_report(&ActionReport::default()),
        "0 store paths were skipped\n\
         0 store paths were pushed, totalling 0 B\n"
    );
}

#[test]
fn reports_the_end_with_errors() {
    let mut reporter = RealDrainProgressReporter::new();
    reporter.report_paths_left_to_handle(2);
    let report = ActionReport {
        num_bytes_pushed: 1536,
        num_paths_pushed: 1,
        num_paths_skipped: 1,
        path_closure_errors: vec![(path("foo"), "no such path".to_owned())],
        path_handling_errors: vec![(
            path("bar"),
            HandlePathError::UploadNar("timeout".to_owned()),
        )],
    };
    assert_eq!(
        reporter.report_final_report(&report),
        "\n\
         1 store path was skipped\n\
         1 store path was pushed, totalling 1.5 KiB\n\
         2 store paths could not be handled\n\
         /nix/store/aaaa-foo: no such path\n\
         /nix/store/aaaa-bar: couldn't upload NAR to cache: timeout\n"
    );
}

#[test]
fn reports_the_end_with_one_error() {
    let report = ActionReport {
        path_handling_errors: vec![(
            path("bar"),
            HandlePathError::WriteNarWroteZeroBytes,
        )],
        ..ActionReport::default()
    };
    assert_eq!(
        RealDrainProgressReporter::new().report_final_report(&report),
        "0 store paths were skipped\n\
         0 store paths were pushed, totalling 0 B\n\
         1 store path could not be handled\n\
         /nix/store/aaaa-bar: got empty NAR from store\n"
    );
}

fn path(name: &str) -> StorePath {
    StorePath {
        store_dir: StoreDir::NixStore,
        basename: StoreBasename { hash: "aaaa".to_owned(), name: name.to_owned() },
    }
}
