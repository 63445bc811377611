use timer_res_benchmark::language::Language;
use timer_res_benchmark::localization::Localization;
use timer_res_benchmark::localization_key::LocalizationKey;

#[test]
fn catalog_lookup() {
    let loc = Localization::new(Language::English);
    assert_eq!(loc.get(LocalizationKey::Title), "Timer Resolution Benchmark");
    assert_eq!(loc.get_timeout_error(), "Error: MeasureSleep exceeded its 30 s budget.");
    assert_eq!(loc.get_exit_prompt(), "Press Enter to exit...");
}

#[test]
fn formatted_accessors() {
    let loc = Localization::new(Language::English);
    assert_eq!(loc.get_working_dir("/tmp/bench"), "Working directory: /tmp/bench");
    assert_eq!(loc.get_rank(3), "Rank 3");
    assert_eq!(loc.get_optimal_value(5_000), "Optimal timer period: 0.5000 ms");
    assert_eq!(loc.get_optimal_recommendation(5_000), "Recommended SetTimerResolution argument: 5000");
    assert_eq!(loc.get_unique_points(3, 15), "Unique points: 3 of 15");
    assert_eq!(
        loc.get_range(5_000, 10_000),
        "Range: [0.5000, 1.0000] ms"
    );
    assert_eq!(
        loc.get_weights(60, 30, 10),
        "Weights: accuracy 60%, consistency 30%, worst case 10%"
    );
    assert_eq!(loc.get_verified(5_186), "verified at 0.5186 ms");
    assert_eq!(
        loc.get_critical_mismatch(5_000, 7_000),
        "Critical period mismatch: requested 0.5000 ms, reported 0.7000 ms"
    );
}

#[test]
fn languages_name_themselves() {
    assert_eq!(Language::English.name(), "English");
    assert_eq!(Language::Ukrainian.name(), "Українська");
    assert_eq!(Language::Russian.name(), "Русский");
    assert_eq!(Language::Chinese.name(), "中文");
    assert_eq!(Language::English.code(), "en");
    assert_eq!(Language::Ukrainian.code(), "uk");
    assert_eq!(Language::Russian.code(), "ru");
    assert_eq!(Language::Chinese.code(), "zh");
    let all = Language::all();
    assert_eq!(all.len(), 4);
    assert_eq!(all[0], Language::English);
}

#[test]
fn catalogs_dispatch_per_language() {
    let russian = Localization::new(Language::Russian);
    let ukrainian = Localization::new(Language::Ukrainian);
    let chinese = Localization::new(Language::Chinese);
    let english = Localization::new(Language::English);
    assert_eq!(english.get(LocalizationKey::LinearMethodStep), "Step: ");
    assert_eq!(russian.get(LocalizationKey::LinearMethodStep), "Шаг: ");
    assert_eq!(ukrainian.get(LocalizationKey::LinearMethodStep), "Крок: ");
    assert_eq!(chinese.get(LocalizationKey::LinearMethodStep), "步长: ");
    assert_eq!(russian.get(LocalizationKey::LinearMethodRange), "Диапазон: ");
    assert_eq!(ukrainian.get(LocalizationKey::LinearMethodPoints), "Точок для перевірки: ");
    assert_eq!(chinese.get(LocalizationKey::LinearMethodRuns), "每点运行次数: 3");
    // Keys without a translation fall back to the English table.
    assert_eq!(russian.get(LocalizationKey::Title), "Timer Resolution Benchmark");
    assert_eq!(chinese.get(LocalizationKey::Rank), "Rank ");
}

#[test]
fn menu_choice_clamps() {
    assert_eq!(Language::from_choice(0), Language::English);
    assert_eq!(Language::from_choice(1), Language::English);
    assert_eq!(Language::from_choice(2), Language::Ukrainian);
    assert_eq!(Language::from_choice(3), Language::Russian);
    assert_eq!(Language::from_choice(4), Language::Chinese);
    assert_eq!(Language::from_choice(99), Language::Chinese);
}
