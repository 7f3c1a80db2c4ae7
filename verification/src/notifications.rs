//! User-facing notifications with a display timer and a random identity.
//! Every terminal pipeline outcome produces exactly one of these.

use vstd::prelude::*;

use crate::clock::{now_unix_millis, random_id};

verus! {

/// A display countdown: started at `start_time` (Unix milliseconds) and
/// elapsed once `duration` milliseconds have passed.
#[derive(Clone, Debug)]
pub struct Timer {
    pub start_time: i64,
    pub duration: i64,
}

impl Timer {
    pub fn new(start_time: i64, duration: i64) -> (t: Timer)
        ensures
            t.start_time == start_time,
            t.duration == duration,
    {
        Timer { start_time, duration }
    }

    /// Whether the timer has elapsed at the given instant.
    pub fn update(&self, now: i64) -> (r: bool)
        ensures
            r == (now as int - self.start_time as int >= self.duration as int),
    {
        (now as i128) - (self.start_time as i128) >= (self.duration as i128)
    }
}

#[derive(Clone, Debug)]
pub struct Notification {
    pub title: String,
    pub message: String,
    pub timer: Timer,
    pub id: i32,
}

fn fresh_timer(duration: i64) -> (t: Timer)
    ensures
        t.duration == duration,
{
    Timer::new(now_unix_millis(), duration)
}

pub fn rate_limit_notification() -> (n: Notification)
    ensures
        n.title@ == "Github Rate Limited"@,
        n.message@
            == "Open Lights Manager has sent too many requests to Github.\nConsider entering a Github Token in Settings to see updates and new apps"@,
        n.timer.duration == 30_000,
        n.id >= 0,
{
    Notification {
        title: String::from_str("Github Rate Limited"),
        message: String::from_str(
            "Open Lights Manager has sent too many requests to Github.\nConsider entering a Github Token in Settings to see updates and new apps",
        ),
        timer: fresh_timer(30_000),
        id: random_id(),
    }
}

pub fn java_failure_corrupted() -> (n: Notification)
    ensures
        n.title@ == "Java Check Failure"@,
        n.message@
            == "The provided Java Runtime is either invalid or corrupted.\nTry a different Java Runtime or reinstall the current one."@,
        n.timer.duration == 15_000,
        n.id >= 0,
{
    Notification {
        title: String::from_str("Java Check Failure"),
        message: String::from_str(
            "The provided Java Runtime is either invalid or corrupted.\nTry a different Java Runtime or reinstall the current one.",
        ),
        timer: fresh_timer(15_000),
        id: random_id(),
    }
}

pub fn java_failure_issue() -> (n: Notification)
    ensures
        n.title@ == "Java Check Failure"@,
        n.message@
            == "Failed to run the Java Check.\nPlease try running the Java Check again.\nIf the issue continues, report the issue on Github."@,
        n.timer.duration == 15_000,
        n.id >= 0,
{
    Notification {
        title: String::from_str("Java Check Failure"),
        message: String::from_str(
            "Failed to run the Java Check.\nPlease try running the Java Check again.\nIf the issue continues, report the issue on Github.",
        ),
        timer: fresh_timer(15_000),
        id: random_id(),
    }
}

pub fn java_failure_invalid() -> (n: Notification)
    ensures
        n.title@ == "Java Check Failure"@,
        n.message@
            == "An invalid Java Runtime has been provided.\nEnsure \"javaw\" or \"java\" has been selected."@,
        n.timer.duration == 15_000,
        n.id >= 0,
{
    Notification {
        title: String::from_str("Java Check Failure"),
        message: String::from_str(
            "An invalid Java Runtime has been provided.\nEnsure \"javaw\" or \"java\" has been selected.",
        ),
        timer: fresh_timer(15_000),
        id: random_id(),
    }
}

pub fn java_success(stdout: String) -> (n: Notification)
    ensures
        n.title@ == "Java Check Success"@,
        n.message@ == stdout@ + " has been checked."@,
        n.timer.duration == 15_000,
        n.id >= 0,
{
    let mut message: String = stdout;
    message.append(" has been checked.");
    Notification {
        title: String::from_str("Java Check Success"),
        message,
        timer: fresh_timer(15_000),
        id: random_id(),
    }
}

pub fn app_installation_failure(app: &String) -> (n: Notification)
    ensures
        n.title@ == "App Installation Failure"@,
        n.message@ == app@ + " has failed to install.\nEnsure your device is connected to the Internet."@,
        n.timer.duration == 15_000,
        n.id >= 0,
{
    let mut message: String = app.clone();
    message.append(" has failed to install.\nEnsure your device is connected to the Internet.");
    Notification {
        title: String::from_str("App Installation Failure"),
        message,
        timer: fresh_timer(15_000),
        id: random_id(),
    }
}

pub fn app_installation_success(app: &String) -> (n: Notification)
    ensures
        n.title@ == "App Installation Successful"@,
        n.message@ == app@ + " has installed."@,
        n.timer.duration == 15_000,
        n.id >= 0,
{
    let mut message: String = app.clone();
    message.append(" has installed.");
    Notification {
        title: String::from_str("App Installation Successful"),
        message,
        timer: fresh_timer(15_000),
        id: random_id(),
    }
}

pub fn manager_installation_success() -> (n: Notification)
    ensures
        n.title@ == "Open Lights Manager Installation Successful"@,
        n.message@ == "Please restart this application for the update to complete."@,
        n.timer.duration == 15_000,
        n.id >= 0,
{
    Notification {
        title: String::from_str("Open Lights Manager Installation Successful"),
        message: String::from_str("Please restart this application for the update to complete."),
        timer: fresh_timer(15_000),
        id: random_id(),
    }
}

pub fn launched_application(name: &String) -> (n: Notification)
    ensures
        n.title@ == name@ + " is launching..."@,
        n.message@ == "The application will open momentarily.\nPlease wait."@,
        n.timer.duration == 10_000,
        n.id >= 0,
{
    let mut title: String = name.clone();
    title.append(" is launching...");
    Notification {
        title,
        message: String::from_str("The application will open momentarily.\nPlease wait."),
        timer: fresh_timer(10_000),
        id: random_id(),
    }
}

pub fn launched_application_missing_java(name: &String) -> (n: Notification)
    ensures
        n.title@ == name@ + " failed to launch"@,
        n.message@
            == "The application requires a Java Environment.\nPlease install GraalVM from the Browse tab."@,
        n.timer.duration == 15_000,
        n.id >= 0,
{
    let mut title: String = name.clone();
    title.append(" failed to launch");
    Notification {
        title,
        message: String::from_str(
            "The application requires a Java Environment.\nPlease install GraalVM from the Browse tab.",
        ),
        timer: fresh_timer(15_000),
        id: random_id(),
    }
}

} // verus!
