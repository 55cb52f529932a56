use yalter_bot::wolfram::{
    failure_reply, find_pod, handle_wa, image_failure, not_understood, pod_message, query_url,
    send_pod_contents, Outgoing, Pod, QueryResult, SubPod,
};

fn subpod(image: Option<&str>, plaintext: Option<&str>) -> SubPod {
    SubPod { image: image.map(|s| s.to_string()), plaintext: plaintext.map(|s| s.to_string()) }
}

fn pod(title: &str, subpods: Vec<SubPod>) -> Pod {
    Pod { title: title.to_string(), subpods }
}

fn answer(pods: Vec<Pod>) -> QueryResult {
    QueryResult { success: true, error: false, pods, did_you_means: None }
}

fn image(text: &str, source: &str, filename: &str) -> Outgoing {
    Outgoing::Image {
        text: text.to_string(),
        source: source.to_string(),
        filename: filename.to_string(),
    }
}

#[test]
fn query_address() {
    assert_eq!(
        Ok("http://api.wolframalpha.com/v2/query?appid=ID-1&input=int+sin+x+%2F+x+dx%2C+0+%3C+x".to_string()),
        query_url("ID-1", "int sin x / x dx, 0 < x")
    );
}

#[test]
fn error_answers() {
    let mut result = answer(vec![]);
    result.error = true;
    result.success = false;
    assert_eq!(Err("Invalid request, call YaLTeR!".to_string()), handle_wa(&result));
    result.success = true;
    assert_eq!(Err("Invalid request, call YaLTeR!".to_string()), handle_wa(&result));
}

#[test]
fn answers_that_were_not_understood() {
    let means = |list: &[&str]| Some(list.iter().map(|s| s.to_string()).collect::<Vec<String>>());
    assert_eq!(
        "Wolphram!Alpha couldn't understand your input. :/",
        not_understood(&None)
    );
    assert_eq!(
        "Wolphram!Alpha couldn't understand your input. :/",
        not_understood(&means(&[]))
    );
    assert_eq!(
        "Wolphram!Alpha couldn't understand your input. :/\n\nDid you mean `this`?",
        not_understood(&means(&["this"]))
    );
    assert_eq!(
        "Wolphram!Alpha couldn't understand your input. :/\n\nDid you mean:\n• `this`\n• `that`",
        not_understood(&means(&["this", "that"]))
    );
    let mut result = answer(vec![pod("Result", vec![subpod(Some("i"), None)])]);
    result.success = false;
    result.did_you_means = means(&["this"]);
    assert_eq!(
        Err("Wolphram!Alpha couldn't understand your input. :/\n\nDid you mean `this`?".to_string()),
        handle_wa(&result)
    );
}

#[test]
fn pods_are_sent_with_their_first_text_and_image() {
    let result = answer(vec![
        pod("Plot", vec![subpod(None, Some("")), subpod(Some("plot.gif"), Some("the plot")), subpod(Some("x"), Some("y"))]),
        pod("Input interpretation", vec![subpod(None, None), subpod(Some("in.gif"), None)]),
        pod("Input", vec![subpod(Some("second.gif"), Some("second"))]),
        pod("Result", vec![subpod(Some("never.gif"), Some("never"))]),
    ]);
    assert_eq!(
        Ok(vec![
            image("Input interpretation:", "in.gif", "input_interpretation.gif"),
            image("Result:\n```\nthe plot\n```", "plot.gif", "result.gif"),
        ]),
        handle_wa(&result)
    );
    assert_eq!(Some(1), find_pod(&result.pods, true));
    assert_eq!(Some(0), find_pod(&result.pods, false));
    assert_eq!("H\n```\nthe plot\n```", pod_message(&result.pods[0], "H"));
    assert_eq!("H", pod_message(&result.pods[1], "H"));
}

#[test]
fn pod_without_image_sends_nothing() {
    let result = answer(vec![
        pod("Input", vec![subpod(None, Some("text only"))]),
        pod("Result", vec![subpod(None, Some("42"))]),
    ]);
    assert_eq!(Ok(vec![]), handle_wa(&result));
    let mut list = vec![Outgoing::Text("kept".to_string())];
    send_pod_contents(&mut list, &result.pods[1], "Result:", "result.gif");
    assert_eq!(vec![Outgoing::Text("kept".to_string())], list);
    send_pod_contents(&mut list, &pod("R", vec![subpod(Some("s"), Some("t"))]), "H", "f");
    assert_eq!(
        vec![Outgoing::Text("kept".to_string()), image("H\n```\nt\n```", "s", "f")],
        list
    );
}

#[test]
fn missing_result_is_reported() {
    let text = "Wolfram!Alpha didn't return a result pod. This probably means that the standard computation time exceeded.";
    assert_eq!(Ok(vec![Outgoing::Text(text.to_string())]), handle_wa(&answer(vec![])));
    let result = answer(vec![pod("Input", vec![subpod(Some("in.gif"), Some("x"))])]);
    assert_eq!(
        Ok(vec![
            image("Input interpretation:\n```\nx\n```", "in.gif", "input_interpretation.gif"),
            Outgoing::Text(text.to_string()),
        ]),
        handle_wa(&result)
    );
    assert_eq!(None, find_pod(&result.pods, false));
}

#[test]
fn image_failures() {
    assert_eq!(
        "Result:\n\nSomething's broken. :/ (Couldn't get the resulting image returned by the API: timeout)",
        image_failure("Result:", "timeout")
    );
    assert_eq!(
        "Something's broken. :/ (Couldn't get the resulting image returned by the API: timeout)",
        image_failure("", "timeout")
    );
}

#[test]
fn failures_name_their_causes() {
    assert_eq!("It broke.", failure_reply("It broke.", &vec![]));
    assert_eq!(
        "It broke.\nCaused by: a\nCaused by: b",
        failure_reply("It broke.", &vec!["a".to_string(), "b".to_string()])
    );
}
