use subchunker::benchmark::{decimal_text, launch_args, launch_jar, BenchmarkRun};
use subchunker::console::COMPLETE;

#[test]
fn benchmark_arguments() {
    let args = launch_args(4, &vec![], true);
    assert_eq!(args, vec!["-Xms4G", "-Xmx4G", "-jar", "fabric-server.jar", "nogui"]);
}

#[test]
fn warm_up_arguments_keep_caller_arguments() {
    let extra = vec!["-XX:+UseG1GC".to_string(), "-Dfoo=bar".to_string()];
    let args = launch_args(12, &extra, false);
    assert_eq!(args, vec!["-Xms12G", "-Xmx12G", "-XX:+UseG1GC", "-Dfoo=bar", "-jar", "fabric-server.jar"]);
}

#[test]
fn benchmark_launch_plan() {
    let plan = launch_jar("/work", "1.21.4", "Azul", 8, &vec![], true, false);
    assert_eq!(plan.program, "/work/subchunker/java/azul/bin/java");
    assert_eq!(plan.working_dir, "/work/subchunker/server/1.21.4");
    assert!(plan.capture_output);
    assert_eq!(plan.remove_after, Some("/work/subchunker/server/1.21.4/world".to_string()));
    assert_eq!(plan.args, vec!["-Xms8G", "-Xmx8G", "-jar", "fabric-server.jar", "nogui"]);
}

#[test]
fn warm_up_launch_plan_on_windows() {
    let plan = launch_jar("C:/w", "1.20.1", "Graalvm", 2, &vec![], false, true);
    assert_eq!(plan.program, "C:/w/subchunker/java/graalvm/bin/javaw.exe");
    assert!(!plan.capture_output);
    assert_eq!(plan.remove_after, None);
}

#[test]
fn benchmark_run_scores_the_mean_rate_at_completion() {
    let mut run = BenchmarkRun::new();
    assert!(run.feed_line("[Chunky] Task running (10.0%: 100.0 cps)"));
    assert!(run.feed_line("[Server thread/INFO]: saving"));
    assert!(run.feed_line("[Chunky] Task running (50.0%: 200.0 cps)"));
    assert_eq!(run.progress(), 50_000);
    assert_eq!(run.score(), None);
    assert!(!run.feed_line("[Chunky] Task running (broken%: 1 cps)"));
    assert_eq!(run.average(), 150_000);
    assert!(run.feed_line("[Chunky] Task finished (100.0%)"));
    assert_eq!(run.progress(), COMPLETE);
    assert_eq!(run.score(), Some(150_000));
}

#[test]
fn empty_benchmark_scores_zero() {
    let mut run = BenchmarkRun::new();
    assert!(run.feed_line("[Chunky] done (100%)"));
    assert_eq!(run.score(), Some(0));
}

#[test]
fn numbers_in_decimal() {
    assert_eq!(decimal_text(0), "0");
    assert_eq!(decimal_text(7), "7");
    assert_eq!(decimal_text(10), "10");
    assert_eq!(decimal_text(4096), "4096");
    assert_eq!(decimal_text(u32::MAX), "4294967295");
}
