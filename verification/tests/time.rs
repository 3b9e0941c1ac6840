use kfs::time::{ctime, jiffies, jiffies_inc, sleep, sleep_done, time_from_ms, SleepPlan};

#[test]
fn ctime_epoch() {
    assert_eq!(ctime(0).as_str(), "Thu Jan  1 00:00:00 1970");
}

#[test]
fn ctime_dates() {
    assert_eq!(ctime(86400 * 31).as_str(), "Sun Feb  1 00:00:00 1970");
    assert_eq!(ctime(1_000_000_000).as_str(), "Sun Sep  9 01:46:40 2001");
    assert_eq!(ctime(957_139_200).as_str(), "Mon May  1 00:00:00 2000");
    assert_eq!(ctime(3_723).as_str(), "Thu Jan  1 01:02:03 1970");
}

#[test]
fn ctime_leap_years() {
    assert_eq!(ctime(951_868_800).as_str(), "Wed Mar  1 00:00:00 2000");
    assert_eq!(ctime(68_169_600).as_str(), "Tue Feb 29 00:00:00 1972");
    assert_eq!(ctime(94_608_000).as_str(), "Sun Dec 31 00:00:00 1972");
    assert_eq!(ctime(94_694_400).as_str(), "Mon Jan  1 00:00:00 1973");
    assert_eq!(ctime(u32::MAX).as_str(), "Sun Feb  7 06:28:15 2106");
}

#[test]
fn jiffies_count_and_wrap() {
    let mut counter: usize = 5;
    jiffies_inc(&mut counter);
    assert_eq!(jiffies(&counter), 6);
    let mut top: usize = usize::MAX;
    jiffies_inc(&mut top);
    assert_eq!(jiffies(&top), 0);
}

#[test]
fn sleep_plans() {
    assert_eq!(sleep(2000), SleepPlan::UntilElapsed(2000));
    assert_eq!(sleep(1000), SleepPlan::Delay(1_000_000));
    assert_eq!(sleep(3), SleepPlan::Delay(3000));
    assert!(!sleep_done(100, 50, 149));
    assert!(sleep_done(100, 50, 150));
}

#[test]
fn timestamp_from_milliseconds() {
    let t = time_from_ms(12_345);
    assert_eq!(t.second, 12);
    assert_eq!(t.millisecond, 12_333);
    let t = time_from_ms(999);
    assert_eq!((t.second, t.millisecond), (0, 999));
}
