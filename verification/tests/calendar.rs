use missive::calendar::{
    build_calendar_month, calendar_month_on, event_card_to_detail, event_card_to_summary,
    event_dates_set, extract_location, form_to_jscalendar, format_time_12h, parse_duration_display,
    parse_duration_parts, parse_start_display, EventFormData, EventLocation, EventParticipant,
    EventSummary, JsCalendarEvent,
};
use missive::date::CalendarDate;
use missive::ids::CalendarEventId;

// --- parse_duration_display ---

#[test]
fn duration_all_day() {
    assert_eq!(parse_duration_display("P1D"), "All day");
}

#[test]
fn duration_multi_day() {
    assert_eq!(parse_duration_display("P3D"), "3 days");
}

#[test]
fn duration_30_min() {
    assert_eq!(parse_duration_display("PT30M"), "30 min");
}

#[test]
fn duration_1_hour() {
    assert_eq!(parse_duration_display("PT1H"), "1 hr");
}

#[test]
fn duration_1h30m() {
    assert_eq!(parse_duration_display("PT1H30M"), "1 hr 30 min");
}

#[test]
fn duration_empty() {
    assert_eq!(parse_duration_display(""), "");
}

#[test]
fn duration_zero_shows_nothing() {
    assert_eq!(parse_duration_display("PT0M"), "");
}

#[test]
fn duration_parts_for_edit_form() {
    assert_eq!(parse_duration_parts("PT1H30M"), ("1".to_string(), "30".to_string()));
    assert_eq!(parse_duration_parts("PT45M"), ("0".to_string(), "45".to_string()));
    assert_eq!(parse_duration_parts("P1D"), ("24".to_string(), "0".to_string()));
}

// --- parse_start_display ---

#[test]
fn start_with_time() {
    let (date, time, naive) = parse_start_display("2025-06-23T20:00:00", false);
    assert_eq!(date, "June 23, 2025");
    assert_eq!(time, "8 PM");
    assert!(naive.is_some());
}

#[test]
fn start_all_day() {
    let (date, time, _) = parse_start_display("2025-06-19T00:00:00", true);
    assert_eq!(date, "June 19, 2025");
    assert_eq!(time, "");
}

#[test]
fn start_with_minutes() {
    let (_, time, _) = parse_start_display("2025-06-23T14:30:00", false);
    assert_eq!(time, "2:30 PM");
}

#[test]
fn start_midnight() {
    let (_, time, _) = parse_start_display("2025-06-23T00:00:00", false);
    assert_eq!(time, "12 AM");
}

#[test]
fn start_noon() {
    let (_, time, _) = parse_start_display("2025-06-23T12:00:00", false);
    assert_eq!(time, "12 PM");
}

#[test]
fn start_unparsable_date_is_shown_as_is() {
    let (date, time, naive) = parse_start_display("not-a-date", false);
    assert_eq!(date, "not-a-date");
    assert_eq!(time, "");
    assert!(naive.is_none());
}

#[test]
fn start_date_is_parsed() {
    let (_, _, naive) = parse_start_display("2025-06-23T20:00:00", false);
    assert_eq!(naive, Some(CalendarDate { year: 2025, month: 6, day: 23 }));
}

// --- extract_location ---

#[test]
fn location_from_map() {
    let map = vec![(
        "loc1".to_string(),
        EventLocation { name: Some("Conference Room".to_string()), location_type: None },
    )];
    assert_eq!(extract_location(&Some(map)), "Conference Room");
}

#[test]
fn location_none() {
    assert_eq!(extract_location(&None), "");
}

#[test]
fn location_skips_unnamed_entries() {
    let map = vec![
        ("a".to_string(), EventLocation { name: None, location_type: None }),
        ("b".to_string(), EventLocation { name: Some("Room 2".to_string()), location_type: None }),
    ];
    assert_eq!(extract_location(&Some(map)), "Room 2");
}

// --- event_card_to_summary ---

#[test]
fn summary_from_timed_event() {
    let card = JsCalendarEvent {
        id: Some("e1".to_string()),
        title: Some("Team Meeting".to_string()),
        start: Some("2025-06-23T14:00:00".to_string()),
        duration: Some("PT1H".to_string()),
        show_without_time: Some(false),
        ..Default::default()
    };
    let summary = event_card_to_summary(&card).unwrap();
    assert_eq!(summary.title, "Team Meeting");
    assert_eq!(summary.time_display, "2 PM");
    assert!(!summary.is_all_day);
}

#[test]
fn summary_from_all_day_event() {
    let card = JsCalendarEvent {
        id: Some("e2".to_string()),
        title: Some("Holiday".to_string()),
        start: Some("2025-12-25T00:00:00".to_string()),
        duration: Some("P1D".to_string()),
        show_without_time: Some(true),
        ..Default::default()
    };
    let summary = event_card_to_summary(&card).unwrap();
    assert!(summary.is_all_day);
    assert_eq!(summary.time_display, "");
}

#[test]
fn calendar_summary_requires_id() {
    let card = JsCalendarEvent { title: Some("No ID".to_string()), ..Default::default() };
    assert!(event_card_to_summary(&card).is_none());
}

#[test]
fn one_day_duration_makes_an_all_day_event() {
    let card = JsCalendarEvent {
        id: Some("e3".to_string()),
        start: Some("2025-12-25T09:00:00".to_string()),
        duration: Some("P1D".to_string()),
        ..Default::default()
    };
    let summary = event_card_to_summary(&card).unwrap();
    assert!(summary.is_all_day);
    assert_eq!(summary.time_display, "");
    assert_eq!(summary.start_date, Some(CalendarDate { year: 2025, month: 12, day: 25 }));
}

// --- event_card_to_detail ---

#[test]
fn detail_prefills_edit_form() {
    let card = JsCalendarEvent {
        id: Some("e4".to_string()),
        title: Some("Review".to_string()),
        description: Some("Quarterly".to_string()),
        start: Some("2025-06-23T14:30:00".to_string()),
        duration: Some("PT1H30M".to_string()),
        participants: Some(vec![(
            "p1".to_string(),
            EventParticipant {
                name: Some("Ann".to_string()),
                calendar_address: Some("mailto:ann@example.com".to_string()),
                participant_type: None,
            },
        )]),
        free_busy_status: Some("busy".to_string()),
        ..Default::default()
    };
    let detail = event_card_to_detail(&card).unwrap();
    assert_eq!(detail.id.as_str(), "e4");
    assert_eq!(detail.date_display, "June 23, 2025");
    assert_eq!(detail.time_display, "2:30 PM");
    assert_eq!(detail.duration_display, "1 hr 30 min");
    assert_eq!(detail.start_date, "2025-06-23");
    assert_eq!(detail.start_time, "14:30");
    assert_eq!(detail.duration_hours, "1");
    assert_eq!(detail.duration_minutes, "30");
    assert_eq!(detail.participants.len(), 1);
    assert_eq!(detail.participants[0].name, "Ann");
    assert_eq!(detail.participants[0].email, "ann@example.com");
    assert_eq!(detail.free_busy_status, "busy");
}

#[test]
fn detail_requires_id() {
    assert!(event_card_to_detail(&JsCalendarEvent::default()).is_none());
}

// --- build_calendar_month ---

#[test]
fn calendar_month_march_2026() {
    let events: Vec<CalendarDate> = Vec::new();
    let month = build_calendar_month(2026, 3, None, &events).unwrap();
    assert_eq!(month.month_name, "March 2026");
    assert_eq!(month.days.len(), 42);
    // March 1, 2026 is a Sunday: the grid starts on Monday, February 23
    assert_eq!(month.days[0].day, 23);
    assert!(!month.days[0].is_current_month);
    let march_1 = month.days.iter().find(|d| d.day == 1 && d.is_current_month);
    assert!(march_1.is_some());
    assert_eq!(month.prev_year, 2026);
    assert_eq!(month.prev_month, 2);
    assert_eq!(month.next_year, 2026);
    assert_eq!(month.next_month, 4);
}

#[test]
fn calendar_month_january_wrap() {
    let events: Vec<CalendarDate> = Vec::new();
    let month = build_calendar_month(2026, 1, None, &events).unwrap();
    assert_eq!(month.prev_year, 2025);
    assert_eq!(month.prev_month, 12);
}

#[test]
fn calendar_month_december_wrap() {
    let events: Vec<CalendarDate> = Vec::new();
    let month = build_calendar_month(2025, 12, None, &events).unwrap();
    assert_eq!(month.next_year, 2026);
    assert_eq!(month.next_month, 1);
}

#[test]
fn calendar_month_event_dots() {
    let events = vec![CalendarDate { year: 2026, month: 3, day: 14 }];
    let month = build_calendar_month(2026, 3, None, &events).unwrap();
    let march_14 = month.days.iter().find(|d| d.day == 14 && d.is_current_month).unwrap();
    assert!(march_14.has_events);
}

#[test]
fn calendar_month_marks_today_and_selection() {
    let today = CalendarDate { year: 2026, month: 3, day: 10 };
    let selected = Some(CalendarDate { year: 2026, month: 3, day: 12 });
    let month = calendar_month_on(2026, 3, selected, &Vec::new(), today).unwrap();
    let tenth = month.days.iter().find(|d| d.date == today).unwrap();
    assert!(tenth.is_today);
    let twelfth = month.days.iter().find(|d| Some(d.date) == selected).unwrap();
    assert!(twelfth.is_selected);
    assert_eq!(month.days.iter().filter(|d| d.is_today).count(), 1);
}

#[test]
fn calendar_month_days_are_consecutive() {
    let today = CalendarDate { year: 2024, month: 1, day: 1 };
    let month = calendar_month_on(2024, 2, None, &Vec::new(), today).unwrap();
    // February 1, 2024 is a Thursday: the grid starts on Monday, January 29
    assert_eq!(month.days[0].date, CalendarDate { year: 2024, month: 1, day: 29 });
    assert_eq!(month.days[3].date, CalendarDate { year: 2024, month: 2, day: 1 });
    // 2024 is a leap year
    assert_eq!(month.days[31].date, CalendarDate { year: 2024, month: 2, day: 29 });
    assert_eq!(month.days[32].date, CalendarDate { year: 2024, month: 3, day: 1 });
    assert_eq!(month.month_name, "February 2024");
}

#[test]
fn calendar_month_zero_has_no_grid() {
    let today = CalendarDate { year: 2026, month: 3, day: 10 };
    assert!(calendar_month_on(2026, 0, None, &Vec::new(), today).is_none());
}

#[test]
fn calendar_month_out_of_range_falls_back_to_january() {
    let today = CalendarDate { year: 2026, month: 3, day: 10 };
    let month = calendar_month_on(2026, 13, None, &Vec::new(), today).unwrap();
    assert_eq!(month.month_name, "January 2026");
    assert_eq!(month.next_month, 14);
    assert_eq!(month.prev_month, 12);
}

#[test]
fn event_dates_are_distinct() {
    let summary = |d: Option<CalendarDate>| EventSummary {
        id: CalendarEventId::from("x"),
        title: String::new(),
        time_display: String::new(),
        is_all_day: false,
        location: String::new(),
        start_date: d,
    };
    let d1 = CalendarDate { year: 2026, month: 3, day: 14 };
    let d2 = CalendarDate { year: 2026, month: 3, day: 15 };
    let events = vec![summary(Some(d1)), summary(None), summary(Some(d2)), summary(Some(d1))];
    let dates = event_dates_set(&events);
    assert_eq!(dates, vec![d1, d2]);
}

// --- form_to_jscalendar ---

#[test]
fn form_to_timed_event() {
    let form = EventFormData {
        title: "Standup".to_string(),
        start_date: "2026-03-14".to_string(),
        start_time: "09:00".to_string(),
        duration_hours: "0".to_string(),
        duration_minutes: "30".to_string(),
        ..Default::default()
    };
    let event = form_to_jscalendar(&form, "cal1");
    assert_eq!(event.title.as_deref(), Some("Standup"));
    assert_eq!(event.start.as_deref(), Some("2026-03-14T09:00:00"));
    assert_eq!(event.duration.as_deref(), Some("PT30M"));
    assert!(event.show_without_time.is_none());
    assert!(event.calendar_ids.as_ref().unwrap().iter().any(|(k, _)| k == "cal1"));
}

#[test]
fn form_to_all_day_event() {
    let form = EventFormData {
        title: "Holiday".to_string(),
        start_date: "2026-12-25".to_string(),
        is_all_day: "on".to_string(),
        ..Default::default()
    };
    let event = form_to_jscalendar(&form, "cal1");
    assert_eq!(event.duration.as_deref(), Some("P1D"));
    assert_eq!(event.show_without_time, Some(true));
}

#[test]
fn form_without_duration_lasts_an_hour() {
    let form = EventFormData {
        title: " Call ".to_string(),
        start_date: "2026-03-14".to_string(),
        location: "  Room 1 ".to_string(),
        ..Default::default()
    };
    let event = form_to_jscalendar(&form, "cal1");
    assert_eq!(event.title.as_deref(), Some("Call"));
    assert_eq!(event.start.as_deref(), Some("2026-03-14T00:00:00"));
    assert_eq!(event.duration.as_deref(), Some("PT1H"));
    let locations = event.locations.unwrap();
    assert_eq!(locations.len(), 1);
    assert_eq!(locations[0].1.name.as_deref(), Some("Room 1"));
}

#[test]
fn form_round_trips_through_detail() {
    let form = EventFormData {
        title: "Review".to_string(),
        start_date: "2026-03-14".to_string(),
        start_time: "14:30".to_string(),
        duration_hours: "2".to_string(),
        duration_minutes: "15".to_string(),
        ..Default::default()
    };
    let mut event = form_to_jscalendar(&form, "cal1");
    event.id = Some("new".to_string());
    let detail = event_card_to_detail(&event).unwrap();
    assert_eq!(detail.start_date, "2026-03-14");
    assert_eq!(detail.start_time, "14:30");
    assert_eq!(detail.duration_hours, "2");
    assert_eq!(detail.duration_minutes, "15");
}

// --- format_time_12h ---

#[test]
fn format_time_am() {
    assert_eq!(format_time_12h("09:15"), "9:15 AM");
}

#[test]
fn format_time_pm() {
    assert_eq!(format_time_12h("13:00"), "1 PM");
}

#[test]
fn format_time_midnight() {
    assert_eq!(format_time_12h("00:00"), "12 AM");
}

#[test]
fn format_time_without_colon_is_unchanged() {
    assert_eq!(format_time_12h("noon"), "noon");
}

// --- an event form's duration comes back in its edit form ---

fn timed_form(hours: &str, minutes: &str) -> EventFormData {
    EventFormData {
        title: "Review".to_string(),
        start_date: "2026-03-14".to_string(),
        start_time: "10:00".to_string(),
        duration_hours: hours.to_string(),
        duration_minutes: minutes.to_string(),
        ..Default::default()
    }
}

fn fields_after_round_trip(form: &EventFormData) -> (String, String, String) {
    let mut event = form_to_jscalendar(form, "cal1");
    event.id = Some("ev1".to_string());
    let detail = event_card_to_detail(&event).unwrap();
    (detail.duration_hours, detail.duration_minutes, detail.duration_display)
}

#[test]
fn round_trip_hours_and_minutes() {
    let got = fields_after_round_trip(&timed_form("2", "15"));
    assert_eq!(got, ("2".to_string(), "15".to_string(), "2 hr 15 min".to_string()));
}

#[test]
fn round_trip_minutes_only() {
    let got = fields_after_round_trip(&timed_form("0", "45"));
    assert_eq!(got, ("0".to_string(), "45".to_string(), "45 min".to_string()));
}

#[test]
fn round_trip_hours_only() {
    let got = fields_after_round_trip(&timed_form(" 3 ", ""));
    assert_eq!(got, ("3".to_string(), "0".to_string(), "3 hr".to_string()));
}

#[test]
fn round_trip_blank_duration_is_one_hour() {
    let got = fields_after_round_trip(&timed_form("", ""));
    assert_eq!(got, ("1".to_string(), "0".to_string(), "1 hr".to_string()));
}

#[test]
fn round_trip_all_day() {
    let form = EventFormData {
        title: "Holiday".to_string(),
        start_date: "2026-12-25".to_string(),
        is_all_day: "on".to_string(),
        duration_hours: "5".to_string(),
        ..Default::default()
    };
    let got = fields_after_round_trip(&form);
    assert_eq!(got, ("24".to_string(), "0".to_string(), "All day".to_string()));
}

// --- last day of a month ---

#[test]
fn last_day_of_leap_february() {
    assert_eq!(missive::calendar::last_day_of_month(2024, 2), "2024-02-29");
}

#[test]
fn last_day_of_december_rolls_the_year() {
    assert_eq!(missive::calendar::last_day_of_month(2025, 12), "2025-12-31");
}

#[test]
fn last_day_of_april() {
    assert_eq!(missive::calendar::last_day_of_month(2025, 4), "2025-04-30");
}

#[test]
fn day_names_start_on_monday() {
    assert_eq!(missive::calendar::day_names(), ["M", "T", "W", "T", "F", "S", "S"]);
}

#[test]
fn event_form_round_trip_shows_what_was_entered() {
    let form = EventFormData {
        title: " Review ".to_string(),
        description: " notes ".to_string(),
        start_date: "2026-03-14".to_string(),
        start_time: "09:30".to_string(),
        duration_hours: "1".to_string(),
        duration_minutes: "15".to_string(),
        location: " Room 4 ".to_string(),
        ..Default::default()
    };
    let mut event = form_to_jscalendar(&form, "cal1");
    event.id = Some("ev9".to_string());
    let d = event_card_to_detail(&event).unwrap();
    assert_eq!(d.title, "Review");
    assert_eq!(d.description, "notes");
    assert_eq!(d.location, "Room 4");
    assert!(!d.is_all_day);
    assert_eq!(d.start_date, "2026-03-14");
    assert_eq!(d.start_time, "09:30");
    assert_eq!((d.duration_hours.as_str(), d.duration_minutes.as_str()), ("1", "15"));
}

#[test]
fn month_grid_starts_on_monday_with_consecutive_days() {
    let today = CalendarDate { year: 2025, month: 6, day: 10 };
    let cm = calendar_month_on(2025, 6, None, &Vec::new(), today).unwrap();
    let first = &cm.days[0].date;
    assert_eq!((first.year, first.month, first.day), (2025, 5, 26));
    let last = &cm.days[41].date;
    assert_eq!((last.year, last.month, last.day), (2025, 7, 6));
}

// --- the agenda of the events the server returned ---

fn card_at(id: Option<&str>, start: Option<&str>) -> JsCalendarEvent {
    JsCalendarEvent {
        id: id.map(|s| s.to_string()),
        title: Some("t".to_string()),
        start: start.map(|s| s.to_string()),
        ..Default::default()
    }
}

#[test]
fn agenda_skips_events_without_id_and_sorts_by_date() {
    let cards = vec![
        card_at(Some("late"), Some("2025-07-02T09:00:00")),
        card_at(None, Some("2025-06-01T09:00:00")),
        card_at(Some("early"), Some("2025-06-20T10:00:00")),
        card_at(Some("undated"), None),
        card_at(Some("early-too"), Some("2025-06-20T08:00:00")),
    ];
    let events = missive::calendar::events_from_cards(&cards);
    let ids: Vec<&str> = events.iter().map(|e| e.id.as_str()).collect();
    assert_eq!(ids, vec!["undated", "early", "early-too", "late"]);
}
