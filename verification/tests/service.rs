use render_service::client::Call;
use render_service::client::CallAction;
use render_service::client::CallEvent;
use render_service::client::CallPhase;
use render_service::protocol::Pos;
use render_service::protocol::RenderCommand;
use render_service::protocol::RenderConfig;
use render_service::protocol::RenderError;
use render_service::protocol::RenderRequest;
use render_service::protocol::RenderResponse;
use render_service::service::greet;
use render_service::service::init_app;
use render_service::service::init_renderer;
use render_service::service::render_scene;
use render_service::service::test_render;
use render_service::service::Dispatch;
use render_service::service::Service;
use render_service::service::Startup;
use render_service::service::DEFAULT_KEY;
use render_service::worker::Worker;
use render_service::worker::WorkerAction;
use render_service::worker::WorkerEvent;

#[test]
fn greet_says_hello() {
    assert_eq!(greet("Tom".to_string()), "Hello, Tom!");
    assert_eq!(greet(String::new()), "Hello, !");
    assert_eq!(greet("Zoë & co".to_string()), "Hello, Zoë & co!");
}

#[test]
fn default_key_is_key() {
    assert_eq!(DEFAULT_KEY, "key");
}

#[test]
fn new_service_has_no_workers() {
    let service = Service::new();
    assert!(!service.is_initialized());
    assert_eq!(service.workers(), 0);
    assert_eq!(service.lookup(DEFAULT_KEY), None);
}

#[test]
fn first_init_registers_the_default_worker() {
    let mut service = Service::new();
    assert_eq!(init_app(&mut service), Startup::SetUp { spawn: Some(0) });
    assert!(service.is_initialized());
    assert_eq!(service.workers(), 1);
    assert_eq!(service.lookup("key"), Some(0));
}

#[test]
fn second_init_does_nothing() {
    let mut service = Service::new();
    init_app(&mut service);
    assert_eq!(init_app(&mut service), Startup::AlreadyDone);
    assert!(service.is_initialized());
    assert_eq!(service.workers(), 1);
    assert_eq!(service.lookup("key"), Some(0));
}

#[test]
fn many_inits_start_one_worker() {
    let mut service = Service::new();
    let mut spawned = 0;
    for _ in 0..50 {
        if let Startup::SetUp { spawn: Some(_) } = init_app(&mut service) {
            spawned += 1;
        }
    }
    assert_eq!(spawned, 1);
    assert_eq!(service.workers(), 1);
}

#[test]
fn init_finds_a_worker_that_is_registered_already() {
    let mut service = Service::new();
    assert_eq!(init_renderer(&mut service, "key"), Some(0));
    assert!(!service.is_initialized());
    assert_eq!(init_app(&mut service), Startup::SetUp { spawn: None });
    assert!(service.is_initialized());
    assert_eq!(service.workers(), 1);
}

#[test]
fn init_renderer_registers_each_key_once() {
    let mut service = Service::new();
    assert_eq!(init_renderer(&mut service, "a"), Some(0));
    assert_eq!(init_renderer(&mut service, "b"), Some(1));
    assert_eq!(init_renderer(&mut service, "a"), None);
    assert_eq!(init_renderer(&mut service, "b"), None);
    assert_eq!(service.workers(), 2);
    assert_eq!(service.lookup("a"), Some(0));
    assert_eq!(service.lookup("b"), Some(1));
    assert!(!service.is_initialized());
}

#[test]
fn render_before_init_finds_no_worker() {
    let mut service = Service::new();
    assert_eq!(test_render(&mut service, 1, 2), Err(RenderError::WorkerUnreachable));
    assert_eq!(render_scene(&mut service, "key", 1, 2), Err(RenderError::WorkerUnreachable));
    assert_eq!(service.workers(), 0);
}

#[test]
fn render_for_an_unknown_key_finds_no_worker() {
    let mut service = Service::new();
    init_app(&mut service);
    assert_eq!(render_scene(&mut service, "other", 1, 2), Err(RenderError::WorkerUnreachable));
    assert_eq!(service.workers(), 1);
    // the failed call used no ticket
    assert_eq!(test_render(&mut service, 1, 2).unwrap().request.id, 0);
}

#[test]
fn render_hands_out_request_and_call() {
    let mut service = Service::new();
    init_app(&mut service);
    let x = 1.5f64.to_bits();
    let y = (-2.25f64).to_bits();
    assert_eq!(
        test_render(&mut service, x, y),
        Ok(Dispatch {
            worker: 0,
            request: RenderRequest { id: 0, command: RenderCommand::Render(Pos { x, y }) },
            call: Call { id: 0, phase: CallPhase::Sending },
        })
    );
}

#[test]
fn render_goes_to_the_worker_of_its_key() {
    let mut service = Service::new();
    init_app(&mut service);
    init_renderer(&mut service, "second");
    assert_eq!(render_scene(&mut service, "second", 0, 0).unwrap().worker, 1);
    assert_eq!(render_scene(&mut service, "key", 0, 0).unwrap().worker, 0);
    assert_eq!(test_render(&mut service, 0, 0).unwrap().worker, 0);
}

#[test]
fn tickets_count_up() {
    let mut service = Service::new();
    init_app(&mut service);
    for expected in 0..1000u64 {
        let dispatch = test_render(&mut service, 0, 0).unwrap();
        assert_eq!(dispatch.request.id, expected);
        assert_eq!(dispatch.call.id, expected);
    }
}

#[test]
fn each_caller_gets_the_image_of_its_own_position() {
    // a device that paints every pixel byte with the low byte of x
    let config = RenderConfig { width: 2, height: 2, ..RenderConfig::default() };
    let mut service = Service::new();
    init_app(&mut service);
    let mut worker = Worker::new(config);
    worker.step(WorkerEvent::DeviceAcquired { row_alignment: 256 });

    // five callers submit before any response is read
    let mut dispatches = Vec::new();
    for caller in 0..5u64 {
        dispatches.push(test_render(&mut service, 200 + caller, 0).unwrap());
    }

    // the worker serves them one after the other
    let mut responses = Vec::new();
    for dispatch in dispatches.iter() {
        let drawn = match worker.step(WorkerEvent::Request(dispatch.request)) {
            Some(WorkerAction::Render {
                request: RenderRequest { command: RenderCommand::Render(pos), .. },
                ..
            }) => pos.x as u8,
            other => panic!("not rendered: {:?}", other),
        };
        worker.step(WorkerEvent::Rendered);
        match worker.step(WorkerEvent::Mapped(vec![drawn; 512])) {
            Some(WorkerAction::Respond(response)) => responses.push(response),
            other => panic!("no response: {:?}", other),
        }
        worker.step(WorkerEvent::Delivered);
    }

    // every caller sees every response, in an order of its own, and still
    // returns the image drawn from its own position
    for (n, dispatch) in dispatches.iter().enumerate() {
        let mut call = dispatch.call;
        assert_eq!(call.step(CallEvent::Sent), Some(CallAction::AwaitReply));
        let mut returned = None;
        for k in 0..responses.len() {
            let response: RenderResponse = responses[(k + n + 1) % responses.len()].clone();
            match call.step(CallEvent::Reply(response)) {
                Some(CallAction::Return(pixels)) => returned = Some(pixels),
                Some(CallAction::AwaitReply) => {}
                None => {}
                other => panic!("call failed: {:?}", other),
            }
        }
        assert_eq!(returned, Some(vec![200 + n as u8; 16]));
    }
}
