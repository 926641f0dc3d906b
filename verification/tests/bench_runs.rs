use std::cell::RefCell;

use storage_bench::bench::{
    credit, get_4k_read_speed, get_4k_write_speed, measure, step_at, BenchKind, Benchmark,
    Outcome, Step, FILE_TEST_BATCH,
};
use storage_bench::sample::{SpeedError, TrialSample};

#[test]
fn the_batch_is_200_trials() {
    assert_eq!(FILE_TEST_BATCH, 200);
}

#[test]
fn a_write_run_starts_by_creating_the_work_directory() {
    let run = Benchmark::new(BenchKind::Write, 200);
    assert_eq!(run.kind(), BenchKind::Write);
    assert_eq!(run.batch(), 200);
    assert_eq!(run.position(), 0);
    assert_eq!(run.pending(), Some(Step::CreateWorkDir));
    assert!(!run.finished());
}

#[test]
fn write_steps_alternate_between_write_and_probe() {
    assert_eq!(step_at(BenchKind::Write, 200, 0, 9), Some(Step::CreateWorkDir));
    assert_eq!(
        step_at(BenchKind::Write, 200, 1, 0),
        Some(Step::WriteFile { index: 0, size: 1024, timed: true })
    );
    assert_eq!(step_at(BenchKind::Write, 200, 2, 77), Some(Step::ProbeRead { index: 0 }));
    assert_eq!(
        step_at(BenchKind::Write, 200, 3, 5),
        Some(Step::WriteFile { index: 1, size: 1029, timed: true })
    );
    assert_eq!(step_at(BenchKind::Write, 200, 4, 5), Some(Step::ProbeRead { index: 0 }));
    assert_eq!(
        step_at(BenchKind::Write, 200, 399, 3071),
        Some(Step::WriteFile { index: 199, size: 4095, timed: true })
    );
    assert_eq!(step_at(BenchKind::Write, 200, 400, 1), Some(Step::ProbeRead { index: 0 }));
    assert_eq!(step_at(BenchKind::Write, 200, 401, 1), Some(Step::RemoveWorkDir));
    assert_eq!(step_at(BenchKind::Write, 200, 402, 1), None);
    assert_eq!(step_at(BenchKind::Write, 200, u64::MAX, 1), None);
}

#[test]
fn read_steps_populate_first_and_read_afterwards() {
    assert_eq!(step_at(BenchKind::Read, 200, 0, 9), Some(Step::CreateWorkDir));
    assert_eq!(
        step_at(BenchKind::Read, 200, 1, 3072),
        Some(Step::WriteFile { index: 0, size: 1024, timed: false })
    );
    assert_eq!(
        step_at(BenchKind::Read, 200, 200, 10),
        Some(Step::WriteFile { index: 199, size: 1034, timed: false })
    );
    assert_eq!(step_at(BenchKind::Read, 200, 201, 403), Some(Step::TimedRead { index: 3 }));
    assert_eq!(step_at(BenchKind::Read, 200, 400, 199), Some(Step::TimedRead { index: 199 }));
    assert_eq!(step_at(BenchKind::Read, 200, 401, 199), Some(Step::RemoveWorkDir));
    assert_eq!(step_at(BenchKind::Read, 200, 402, 199), None);
}

#[test]
fn a_run_without_trials_creates_and_removes_only() {
    for kind in [BenchKind::Write, BenchKind::Read] {
        assert_eq!(step_at(kind, 0, 0, 5), Some(Step::CreateWorkDir));
        assert_eq!(step_at(kind, 0, 1, 5), Some(Step::RemoveWorkDir));
        assert_eq!(step_at(kind, 0, 2, 5), None);
        let mut run = Benchmark::new(kind, 0);
        run.complete(Outcome::Done);
        assert_eq!(run.pending(), Some(Step::RemoveWorkDir));
        run.complete(Outcome::Done);
        assert!(run.finished());
        assert_eq!(run.speed(), Err(SpeedError::NoElapsedTime));
    }
}

#[test]
fn the_largest_batch_has_its_last_steps_in_place() {
    let last_write = 2 * (u32::MAX as u64) - 1;
    assert_eq!(
        step_at(BenchKind::Write, u32::MAX, last_write, 0),
        Some(Step::WriteFile { index: u32::MAX - 1, size: 1024, timed: true })
    );
    assert_eq!(
        step_at(BenchKind::Write, u32::MAX, last_write + 2, 0),
        Some(Step::RemoveWorkDir)
    );
    assert_eq!(
        step_at(BenchKind::Read, u32::MAX, u32::MAX as u64, 0),
        Some(Step::WriteFile { index: u32::MAX - 1, size: 1024, timed: false })
    );
    assert_eq!(
        step_at(BenchKind::Read, u32::MAX, 2 * (u32::MAX as u64), u64::MAX),
        Some(Step::TimedRead { index: 0 })
    );
}

#[test]
fn a_timed_write_earns_the_size_that_was_asked_for() {
    let step = Some(Step::WriteFile { index: 4, size: 3000, timed: true });
    assert_eq!(
        credit(step, Outcome::Written { micros: 12 }),
        Some(TrialSample { bytes: 3000, micros: 12 })
    );
    assert_eq!(credit(step, Outcome::Done), None);
    assert_eq!(credit(step, Outcome::Failed), None);
    assert_eq!(credit(step, Outcome::Skipped), None);
    assert_eq!(credit(step, Outcome::Read { bytes: 1, micros: 1 }), None);
}

#[test]
fn an_untimed_write_earns_nothing() {
    let step = Some(Step::WriteFile { index: 4, size: 3000, timed: false });
    assert_eq!(credit(step, Outcome::Written { micros: 12 }), None);
    assert_eq!(credit(step, Outcome::Done), None);
}

#[test]
fn a_timed_read_earns_what_it_reports() {
    let step = Some(Step::TimedRead { index: 17 });
    assert_eq!(
        credit(step, Outcome::Read { bytes: 2500, micros: 40 }),
        Some(TrialSample { bytes: 2500, micros: 40 })
    );
    assert_eq!(credit(step, Outcome::Skipped), None);
    assert_eq!(credit(step, Outcome::Failed), None);
    assert_eq!(credit(step, Outcome::Written { micros: 40 }), None);
}

#[test]
fn other_steps_earn_nothing() {
    for step in [
        None,
        Some(Step::CreateWorkDir),
        Some(Step::ProbeRead { index: 0 }),
        Some(Step::RemoveWorkDir),
    ] {
        assert_eq!(credit(step, Outcome::Written { micros: 5 }), None);
        assert_eq!(credit(step, Outcome::Read { bytes: 5, micros: 5 }), None);
        assert_eq!(credit(step, Outcome::Done), None);
    }
}

#[test]
fn a_write_run_of_2_kb_files_at_500_microseconds_each() {
    let mut run = Benchmark::new(BenchKind::Write, 200);
    let mut writes = 0;
    while let Some(step) = run.pending() {
        let outcome = match step {
            Step::WriteFile { size, timed, .. } => {
                assert_eq!(size, 2048);
                assert!(timed);
                writes += 1;
                Outcome::Written { micros: 500 }
            }
            _ => Outcome::Done,
        };
        run.complete_with(outcome, 1024);
    }
    assert_eq!(writes, 200);
    assert!(run.finished());
    assert_eq!(run.position(), 402);
    assert_eq!(run.totals().trials(), 200);
    assert_eq!(run.totals().bytes(), 200 * 2048);
    assert_eq!(run.totals().micros(), 200 * 500);
    assert_eq!(run.speed(), Ok(4_096_000));
}

#[test]
fn the_byte_total_is_the_sum_of_the_sizes_generated() {
    for batch in [1u32, 2, 7, 200] {
        let mut run = Benchmark::new(BenchKind::Write, batch);
        let mut raw: u64 = 0x1234_5678_9abc_def0 + batch as u64;
        let mut generated: u128 = 0;
        let mut trials = 0;
        while let Some(step) = run.pending() {
            let outcome = match step {
                Step::WriteFile { index, size, timed: true } => {
                    assert_eq!(index, trials);
                    assert!(1024 <= size && size < 4096);
                    generated += size as u128;
                    trials += 1;
                    Outcome::Written { micros: 3 }
                }
                _ => Outcome::Done,
            };
            raw = raw.wrapping_mul(6364136223846793005).wrapping_add(1442695040888963407);
            run.complete_with(outcome, raw);
        }
        assert_eq!(trials, batch);
        assert_eq!(run.totals().trials(), batch);
        assert_eq!(run.totals().bytes(), generated);
        assert_eq!(run.totals().micros(), 3 * batch as u128);
        assert!(1024 * batch as u128 <= generated && generated < 4096 * batch as u128);
    }
}

#[test]
fn a_run_with_random_draws_stays_in_range() {
    let mut run = Benchmark::new(BenchKind::Read, 50);
    let mut steps = 0;
    while let Some(step) = run.pending() {
        match step {
            Step::CreateWorkDir => assert_eq!(steps, 0),
            Step::WriteFile { index, size, timed } => {
                assert_eq!(index as u64 + 1, steps);
                assert!(1024 <= size && size < 4096);
                assert!(!timed);
            }
            Step::TimedRead { index } => {
                assert!(50 < steps && steps <= 100);
                assert!(index < 50);
            }
            Step::ProbeRead { .. } => panic!("a read run makes no probe reads"),
            Step::RemoveWorkDir => assert_eq!(steps, 101),
        }
        steps += 1;
        run.complete(Outcome::Done);
    }
    assert_eq!(steps, 102);
}

#[test]
fn random_sizes_are_not_all_the_same() {
    let mut run = Benchmark::new(BenchKind::Write, 100);
    let mut sizes: Vec<u64> = Vec::new();
    while let Some(step) = run.pending() {
        if let Step::WriteFile { size, .. } = step {
            sizes.push(size);
        }
        run.complete(Outcome::Done);
    }
    assert_eq!(sizes.len(), 100);
    sizes.sort();
    sizes.dedup();
    assert!(sizes.len() > 1);
}

#[test]
fn skipped_reads_count_neither_bytes_nor_time() {
    let mut run = Benchmark::new(BenchKind::Read, 4);
    let mut reads = 0;
    while let Some(step) = run.pending() {
        let outcome = match step {
            Step::TimedRead { .. } => {
                reads += 1;
                if reads % 2 == 0 {
                    Outcome::Skipped
                } else {
                    Outcome::Read { bytes: 1500, micros: 30 }
                }
            }
            Step::WriteFile { .. } => Outcome::Written { micros: 1_000_000 },
            _ => Outcome::Done,
        };
        run.complete_with(outcome, 6);
    }
    assert_eq!(reads, 4);
    assert_eq!(run.totals().trials(), 2);
    assert_eq!(run.totals().bytes(), 3000);
    assert_eq!(run.totals().micros(), 60);
    assert_eq!(run.speed(), Ok(50_000_000));
}

#[test]
fn a_read_run_with_every_read_skipped_has_no_elapsed_time() {
    let mut run = Benchmark::new(BenchKind::Read, 3);
    let mut removed = false;
    while let Some(step) = run.pending() {
        if step == Step::RemoveWorkDir {
            removed = true;
        }
        run.complete_with(Outcome::Skipped, 0);
    }
    assert!(removed);
    assert_eq!(run.totals().trials(), 0);
    assert_eq!(run.speed(), Err(SpeedError::NoElapsedTime));
}

#[test]
fn writes_measured_at_zero_microseconds_have_no_elapsed_time() {
    let mut run = Benchmark::new(BenchKind::Write, 3);
    while run.pending().is_some() {
        run.complete_with(Outcome::Written { micros: 0 }, 0);
    }
    assert_eq!(run.totals().trials(), 3);
    assert_eq!(run.totals().bytes(), 3 * 1024);
    assert_eq!(run.speed(), Err(SpeedError::NoElapsedTime));
}

#[test]
fn no_speed_before_the_run_is_over() {
    let mut run = Benchmark::new(BenchKind::Write, 1);
    assert_eq!(run.speed(), Err(SpeedError::Unfinished));
    run.complete_with(Outcome::Done, 0);
    run.complete_with(Outcome::Written { micros: 4 }, 0);
    assert_eq!(run.speed(), Err(SpeedError::Unfinished));
    run.complete_with(Outcome::Done, 0);
    assert_eq!(run.pending(), Some(Step::RemoveWorkDir));
    assert_eq!(run.speed(), Err(SpeedError::Unfinished));
    run.complete_with(Outcome::Done, 0);
    assert_eq!(run.speed(), Ok(256_000_000));
}

#[test]
fn a_speed_too_large_is_out_of_range() {
    let mut run = Benchmark::new(BenchKind::Read, 1);
    run.complete_with(Outcome::Done, 0);
    run.complete_with(Outcome::Done, 0);
    run.complete_with(Outcome::Read { bytes: u64::MAX, micros: 1 }, 0);
    run.complete_with(Outcome::Done, 0);
    assert!(run.finished());
    assert_eq!(run.speed(), Err(SpeedError::OutOfRange));
}

#[test]
fn the_work_directory_is_removed_whatever_the_trials_gave() {
    for kind in [BenchKind::Write, BenchKind::Read] {
        for outcome in [
            Outcome::Done,
            Outcome::Failed,
            Outcome::Skipped,
            Outcome::Written { micros: 2 },
            Outcome::Read { bytes: 8, micros: 2 },
        ] {
            let mut run = Benchmark::new(kind, 5);
            let mut steps: Vec<Step> = Vec::new();
            while let Some(step) = run.pending() {
                steps.push(step);
                run.complete(outcome);
            }
            assert_eq!(steps.len(), 12);
            assert_eq!(steps[0], Step::CreateWorkDir);
            assert_eq!(steps[11], Step::RemoveWorkDir);
            assert_eq!(steps.iter().filter(|s| **s == Step::RemoveWorkDir).count(), 1);
        }
    }
}

#[test]
fn a_finished_run_stays_as_it_is() {
    let mut run = Benchmark::new(BenchKind::Write, 1);
    while run.pending().is_some() {
        run.complete_with(Outcome::Written { micros: 8 }, 0);
    }
    let speed = run.speed();
    run.complete(Outcome::Written { micros: 1 });
    run.complete_with(Outcome::Read { bytes: 9, micros: 9 }, 3);
    assert!(run.finished());
    assert_eq!(run.position(), 4);
    assert_eq!(run.pending(), None);
    assert_eq!(run.totals().trials(), 1);
    assert_eq!(run.speed(), speed);
}

#[test]
fn measure_hands_every_step_over_in_order() {
    let seen: RefCell<Vec<Step>> = RefCell::new(Vec::new());
    let speed = measure(BenchKind::Write, 3, |step| {
        seen.borrow_mut().push(step);
        match step {
            Step::WriteFile { .. } => Outcome::Written { micros: 100 },
            _ => Outcome::Done,
        }
    });
    let seen = seen.into_inner();
    assert_eq!(seen.len(), 8);
    assert_eq!(seen[0], Step::CreateWorkDir);
    for i in 0..3u32 {
        match seen[2 * i as usize + 1] {
            Step::WriteFile { index, size, timed } => {
                assert_eq!(index, i);
                assert!(1024 <= size && size < 4096);
                assert!(timed);
            }
            other => panic!("unexpected step {:?}", other),
        }
        assert_eq!(seen[2 * i as usize + 2], Step::ProbeRead { index: 0 });
    }
    assert_eq!(seen[7], Step::RemoveWorkDir);
    let total: u64 = seen
        .iter()
        .map(|s| match s {
            Step::WriteFile { size, .. } => *size,
            _ => 0,
        })
        .sum();
    assert_eq!(speed, Ok(total * 1_000_000 / 300));
}

#[test]
fn measure_skips_failed_reads() {
    let reads: RefCell<u32> = RefCell::new(0);
    let speed = measure(BenchKind::Read, 10, |step| match step {
        Step::TimedRead { index } => {
            assert!(index < 10);
            let mut n = reads.borrow_mut();
            *n += 1;
            if *n <= 5 {
                Outcome::Skipped
            } else {
                Outcome::Read { bytes: 2000, micros: 250 }
            }
        }
        _ => Outcome::Done,
    });
    assert_eq!(*reads.borrow(), 10);
    assert_eq!(speed, Ok(8_000_000));
}

#[test]
fn measure_without_time_reports_it() {
    let speed = measure(BenchKind::Read, 6, |_| Outcome::Skipped);
    assert_eq!(speed, Err(SpeedError::NoElapsedTime));
}

#[test]
fn the_write_speed_takes_200_trials() {
    let writes: RefCell<u64> = RefCell::new(0);
    let bytes: RefCell<u64> = RefCell::new(0);
    let last: RefCell<Option<Step>> = RefCell::new(None);
    let speed = get_4k_write_speed(|step| {
        *last.borrow_mut() = Some(step);
        match step {
            Step::WriteFile { size, .. } => {
                *writes.borrow_mut() += 1;
                *bytes.borrow_mut() += size;
                Outcome::Written { micros: 500 }
            }
            _ => Outcome::Done,
        }
    });
    assert_eq!(*writes.borrow(), 200);
    assert_eq!(*last.borrow(), Some(Step::RemoveWorkDir));
    let total = *bytes.borrow();
    assert_eq!(speed, Ok(total * 1_000_000 / (200 * 500)));
    let speed = speed.unwrap();
    assert!(2_048_000 <= speed && speed < 8_192_000);
}

#[test]
fn the_read_speed_takes_200_writes_and_200_reads() {
    let writes: RefCell<u64> = RefCell::new(0);
    let reads: RefCell<u64> = RefCell::new(0);
    let speed = get_4k_read_speed(|step| match step {
        Step::WriteFile { timed, .. } => {
            assert!(!timed);
            assert_eq!(*reads.borrow(), 0);
            *writes.borrow_mut() += 1;
            Outcome::Done
        }
        Step::TimedRead { index } => {
            assert!(index < 200);
            assert_eq!(*writes.borrow(), 200);
            *reads.borrow_mut() += 1;
            Outcome::Read { bytes: 2048, micros: 500 }
        }
        _ => Outcome::Done,
    });
    assert_eq!(*writes.borrow(), 200);
    assert_eq!(*reads.borrow(), 200);
    assert_eq!(speed, Ok(4_096_000));
}

#[test]
fn two_runs_side_by_side_do_not_mix() {
    let mut writing = Benchmark::new(BenchKind::Write, 3);
    let mut reading = Benchmark::new(BenchKind::Read, 3);
    loop {
        let write_step = writing.pending();
        let read_step = reading.pending();
        if write_step.is_none() && read_step.is_none() {
            break;
        }
        if let Some(step) = write_step {
            let outcome = match step {
                Step::WriteFile { .. } => Outcome::Written { micros: 10 },
                _ => Outcome::Done,
            };
            writing.complete_with(outcome, 0);
        }
        if let Some(step) = read_step {
            let outcome = match step {
                Step::TimedRead { .. } => Outcome::Read { bytes: 4000, micros: 8 },
                _ => Outcome::Done,
            };
            reading.complete_with(outcome, 0);
        }
    }
    assert_eq!(writing.totals().trials(), 3);
    assert_eq!(writing.totals().bytes(), 3 * 1024);
    assert_eq!(writing.totals().micros(), 30);
    assert_eq!(writing.speed(), Ok(102_400_000));
    assert_eq!(reading.totals().trials(), 3);
    assert_eq!(reading.totals().bytes(), 12_000);
    assert_eq!(reading.totals().micros(), 24);
    assert_eq!(reading.speed(), Ok(500_000_000));
}
