# curriculum

A timetable library for courses made of dated periods, verified with Verus.

- `src/time.rs`: plain-value dates, times of day, date-times and durations;
  calendar arithmetic is done by chrono.
- `src/period.rs`, `src/tutor.rs`, `src/course.rs`: periods, tutors and courses,
  and whether a course is in progress, upcoming, or when it next meets.
- `src/query.rs`: queries over collections of courses, and the laws that
  relate them.
- `src/time_provider.rs`: the local clock and a fixed clock; holidays.
- `src/schedule.rs`: building a course from recurring schedules.
- `src/weekly/`: weekly timetables, by weekday and time of day.
- `src/tui.rs`: the state of the terminal viewer and how keys change it.
- `app/`: the command-line program (with `--tui`, the terminal viewer).
