use signed_store::reaper::{Action, Event, Reaper, Report, DEFAULT_SWEEP_INTERVAL};
use signed_store::store::StoreError;

#[test]
fn the_reaper_sweeps_once_an_hour_by_default() {
    assert_eq!(DEFAULT_SWEEP_INTERVAL, 3600);
    assert_eq!(Reaper::hourly(), Reaper::new(3600));
    assert_eq!(Reaper::new(15).interval, 15);
}

#[test]
fn the_reaper_waits_before_its_first_sweep() {
    assert_eq!(Reaper::hourly().next(Event::Started), Action::Sleep(3600));
    assert_eq!(Reaper::new(5).next(Event::Started), Action::Sleep(5));
}

#[test]
fn the_reaper_sweeps_after_the_interval() {
    assert_eq!(Reaper::new(5).next(Event::Slept), Action::Sweep);
}

#[test]
fn the_reaper_reports_the_count() {
    let reaper = Reaper::new(5);
    assert_eq!(reaper.next(Event::Swept(Ok(0))), Action::Tell(Report::NothingExpired));
    assert_eq!(reaper.next(Event::Swept(Ok(1))), Action::Tell(Report::Pruned(1)));
    assert_eq!(reaper.next(Event::Swept(Ok(12))), Action::Tell(Report::Pruned(12)));
    assert_eq!(Reaper::report(Ok(0)), Report::NothingExpired);
    assert_eq!(Reaper::report(Ok(3)), Report::Pruned(3));
}

#[test]
fn the_reaper_goes_on_after_a_failed_sweep() {
    let reaper = Reaper::new(5);
    let action = reaper.next(Event::Swept(Err(StoreError::Io)));
    assert_eq!(action, Action::Tell(Report::Failed(StoreError::Io)));
    assert_eq!(reaper.next(Event::Told), Action::Sleep(5));
    assert_eq!(reaper.next(Event::Slept), Action::Sweep);
}
