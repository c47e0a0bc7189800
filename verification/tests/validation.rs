use backend::api::MutationRoot;
use backend::api::PostResignationMutation;
use backend::date::Date;
use backend::datetime::DateTime;
use backend::resignation::ResignationInput;
use backend::validation::FutureDateValidator;
use backend::validation::ValidationError;

fn date(year: u32, month: u32, day: u32) -> Date {
    Date::from_ymd(year, month, day).unwrap()
}

#[test]
fn tomorrow_is_accepted() {
    let tomorrow = date(2025, 6, 16);
    let validator = FutureDateValidator::new(date(2025, 6, 15));

    let result = validator.check(&tomorrow);

    assert!(result.is_ok());
}

#[test]
fn today_is_rejected() {
    let today = date(2025, 6, 15);
    let validator = FutureDateValidator::new(date(2025, 6, 15));

    let result = validator.check(&today);

    assert!(result.is_err());
}

#[test]
fn yesterday_is_rejected() {
    let yesterday = date(2025, 6, 14);
    let validator = FutureDateValidator::new(date(2025, 6, 15));

    let result = validator.check(&yesterday);

    assert!(result.is_err());
}

#[test]
fn posting_a_future_retirement_date_builds_the_record() {
    let input = ResignationInput { retirement_date: date(9999, 1, 1), remaining_paid_leave_days: 10 };
    let today = date(2025, 6, 15);
    let now = DateTime::from_parts(date(2025, 6, 15), 12, 0, 0).unwrap();

    let result = MutationRoot.post_resignation(&input, &today, &now);

    let record = result.unwrap();
    assert_eq!(record.retirement_date, date(9999, 1, 1));
    assert_eq!(record.remaining_paid_leave_days, 10);
    assert_eq!(record.created_at, now);
}

#[test]
fn posting_a_past_retirement_date_is_rejected() {
    let input = ResignationInput { retirement_date: date(2000, 1, 1), remaining_paid_leave_days: 10 };
    let today = date(2025, 6, 15);
    let now = DateTime::from_parts(date(2025, 6, 15), 12, 0, 0).unwrap();

    let result = PostResignationMutation.post_resignation(&input, &today, &now);

    assert_eq!(result, Err(ValidationError::NotFutureDate));

    let today_itself = ResignationInput { retirement_date: today, remaining_paid_leave_days: 10 };
    let result = PostResignationMutation.post_resignation(&today_itself, &today, &now);
    assert_eq!(result, Err(ValidationError::NotFutureDate));
}
