use asteroids::config::Config;
use asteroids::entity::Entity;
use asteroids::app_handler::{AppHandler, MAX_FRAME_NANOS};
use asteroids::game::Game;
use asteroids::ids::IdAllocator;
use asteroids::input::{Input, InputAxis, Key};
use asteroids::loaders::{ConfigLoader, ImageLoader, MeshLoader};
use asteroids::menu::{MenuAsk, MenuButton, MenuScene, MenuTab};
use asteroids::test_scene::TestScene;
use asteroids::screen::CLEAR_COLOR;
use asteroids::switch::{match_event, SceneId, SceneSwitch, Transition};
use asteroids::web::LeaderboardState;

#[test]
fn the_default_configuration_is_eight_hundred_by_six_hundred() {
    let config = Config::default();
    assert_eq!(config.size(), (800, 600));
    assert_eq!((config.x(), config.y()), (800, 600));
    assert_eq!(config.center(), (400, 300));
}

#[test]
fn the_actual_size_replaces_the_configured_one_in_use() {
    let mut config = Config::new((640, 481));
    assert_eq!(config.size(), (640, 481));
    config.set_actual_size((1280, 961));
    assert_eq!(config.size(), (1280, 961));
    assert_eq!((config.x(), config.y()), (1280, 961));
    assert_eq!(config.center(), (640, 480));
}

#[test]
fn requests_are_answered_by_transitions() {
    assert_eq!(match_event(SceneSwitch::Stay), Transition::Continue);
    assert_eq!(match_event(SceneSwitch::Quit), Transition::Stop);
    for id in [SceneId::Menu, SceneId::Game, SceneId::Test] {
        assert_eq!(match_event(SceneSwitch::Switch(id)), Transition::Replace(id));
    }
    assert_eq!(SceneSwitch::default(), SceneSwitch::Stay);
}

#[test]
fn the_game_starts_in_the_menu_with_a_black_screen() {
    let game = Game::new(Config::new((4, 3)));
    assert_eq!(game.get_current_scene(), SceneId::Menu);
    assert_eq!(game.get_screen().width(), 4);
    assert_eq!(game.get_screen().height(), 3);
    assert_eq!(game.get_screen().get_buffer(), &[0u32; 12][..]);
    assert_eq!(game.get_config().size(), (4, 3));
}

#[test]
fn the_scene_changes_only_on_a_switch() {
    let mut game = Game::new(Config::new((2, 2)));
    assert_eq!(game.match_event(SceneSwitch::Stay), None);
    assert_eq!(game.get_current_scene(), SceneId::Menu);
    assert_eq!(game.match_event(SceneSwitch::Switch(SceneId::Game)), None);
    assert_eq!(game.get_current_scene(), SceneId::Game);
    assert_eq!(game.match_event(SceneSwitch::Quit), Some(false));
    assert_eq!(game.get_current_scene(), SceneId::Game);
    assert_eq!(game.match_event(SceneSwitch::Switch(SceneId::Test)), None);
    assert_eq!(game.get_current_scene(), SceneId::Test);
    game.open_default_scene();
    assert_eq!(game.get_current_scene(), SceneId::Menu);
}

#[test]
fn a_frame_starts_with_a_cleared_screen() {
    let mut game = Game::new(Config::new((3, 2)));
    game.get_screen_mut().get_buffer_mut()[4] = 77;
    game.begin_frame();
    assert_eq!(game.get_screen().get_buffer(), &[CLEAR_COLOR; 6][..]);
    game.get_config_mut().set_actual_size((9, 9));
    assert_eq!(game.get_config().size(), (9, 9));
    assert_eq!(game.get_screen().width(), 3);
}

#[test]
fn a_frame_never_stands_for_more_than_a_tenth_of_a_second() {
    assert_eq!(MAX_FRAME_NANOS, 100_000_000);
    assert_eq!(AppHandler::frame_time(0), 0);
    assert_eq!(AppHandler::frame_time(16_666_667), 16_666_667);
    assert_eq!(AppHandler::frame_time(100_000_000), 100_000_000);
    assert_eq!(AppHandler::frame_time(100_000_001), 100_000_000);
    assert_eq!(AppHandler::frame_time(u64::MAX), 100_000_000);
    let seconds = std::time::Duration::from_nanos(AppHandler::frame_time(3_000_000_000)).as_secs_f32();
    assert_eq!(seconds, 0.1f32);
}

#[test]
fn a_surface_has_no_side_of_zero() {
    assert_eq!(AppHandler::surface_size(0, 0), (1, 1));
    assert_eq!(AppHandler::surface_size(800, 0), (800, 1));
    assert_eq!(AppHandler::surface_size(1, 600), (1, 600));
    assert_eq!(AppHandler::surface_size(u32::MAX, 2), (u32::MAX, 2));
}

#[test]
fn keys_pull_the_axes() {
    let mut input = Input::default();
    input.update();
    assert_eq!((input.raw_horizontal(), input.raw_vertical(), input.get_fire()), (0, 0, false));

    input.on_key(Key::KeyA, true);
    assert!(input.is_key_down(Key::KeyA));
    assert!(!input.is_key_down(Key::ArrowLeft));
    assert_eq!(input.raw_horizontal(), 0);
    input.update();
    assert_eq!(input.raw_horizontal(), -1);

    input.on_key(Key::ArrowLeft, true);
    input.update();
    assert_eq!(input.raw_horizontal(), -1);

    input.on_key(Key::ArrowRight, true);
    input.update();
    assert_eq!(input.raw_horizontal(), 0);

    input.on_key(Key::KeyA, false);
    input.on_key(Key::ArrowLeft, false);
    input.on_key(Key::KeyD, true);
    input.update();
    assert_eq!(input.raw_horizontal(), 1);

    input.on_key(Key::ArrowUp, true);
    input.on_key(Key::KeyW, true);
    input.on_key(Key::Space, true);
    input.update();
    assert_eq!(input.raw_vertical(), 1);
    assert!(input.get_fire());

    input.on_key(Key::Space, false);
    assert!(input.get_fire());
    input.update();
    assert!(!input.get_fire());
}

#[test]
fn an_axis_adds_up_and_lets_go() {
    let mut axis = InputAxis::new();
    assert_eq!(axis.raw, 0);
    axis.add(1);
    axis.add(1);
    axis.add(-5);
    assert_eq!(axis.raw, -3);
    axis.reset();
    assert_eq!(axis.raw, 0);
}

#[test]
fn loaders_know_their_files_by_the_extension() {
    assert_eq!(ConfigLoader::default().get_extension(), "cfg");
    assert_eq!(MeshLoader::default().get_extension(), "mesh");
    assert_eq!(MeshLoader::get_extension_static(), "mesh");
    assert_eq!(ImageLoader::default().get_extension(), "png");
    assert!(ConfigLoader {}.accepts(&"cfg".to_string()));
    assert!(!ConfigLoader {}.accepts(&"CFG".to_string()));
    assert!(MeshLoader {}.accepts(&"mesh".to_string()));
    assert!(!MeshLoader {}.accepts(&"png".to_string()));
    assert!(ImageLoader {}.accepts(&"png".to_string()));
    assert!(!ImageLoader {}.accepts(&"".to_string()));
}

fn stay() -> MenuAsk {
    MenuAsk { action: SceneSwitch::Stay, fetch: false }
}

#[test]
fn the_main_menu_starts_the_game_or_quits() {
    let mut menu = MenuScene::new();
    assert_eq!(menu.get_scene_name(), "MenuScene");
    assert_eq!(menu.ui(None), stay());
    assert_eq!(menu.ui(Some(MenuButton::Back)), stay());
    assert_eq!(menu.ui(Some(MenuButton::Refresh)), stay());
    assert_eq!(menu.tab, MenuTab::MainScreen);
    let play = menu.ui(Some(MenuButton::Play));
    assert_eq!(play, MenuAsk { action: SceneSwitch::Switch(SceneId::Game), fetch: false });
    assert_eq!(menu.action, SceneSwitch::Switch(SceneId::Game));
    let exit = menu.ui(Some(MenuButton::Exit));
    assert_eq!(exit, MenuAsk { action: SceneSwitch::Quit, fetch: false });
    assert_eq!(menu.ui(None), stay());
    assert_eq!(menu.action, SceneSwitch::Stay);
}

#[test]
fn the_credits_lead_back_to_the_menu() {
    let mut menu = MenuScene::new();
    assert_eq!(menu.ui(Some(MenuButton::Credits)), stay());
    assert_eq!(menu.tab, MenuTab::CreditsScreen);
    assert_eq!(menu.ui(Some(MenuButton::Play)), stay());
    assert_eq!(menu.ui(Some(MenuButton::Exit)), stay());
    assert_eq!(menu.tab, MenuTab::CreditsScreen);
    let back = menu.ui(Some(MenuButton::Back));
    assert_eq!(back, MenuAsk { action: SceneSwitch::Switch(SceneId::Menu), fetch: false });
}

#[test]
fn the_leaderboard_screen_fetches_polls_and_leads_back() {
    let mut menu = MenuScene::new();
    let open = menu.ui(Some(MenuButton::Leaderboard));
    assert_eq!(open, MenuAsk { action: SceneSwitch::Stay, fetch: true });
    assert_eq!(menu.tab, MenuTab::LeaderboardScreen);

    let (sender, receiver) = std::sync::mpsc::channel();
    assert!(menu.web_client.get_leaderboard_data(receiver));
    assert_eq!(menu.ui(None), stay());
    assert!(matches!(menu.web_client.get_leaderboard(), LeaderboardState::Loading));
    sender.send(LeaderboardState::Ready(Vec::new())).unwrap();
    assert_eq!(menu.ui(None), stay());
    assert!(matches!(menu.web_client.get_leaderboard(), LeaderboardState::Ready(_)));

    let refresh = menu.ui(Some(MenuButton::Refresh));
    assert_eq!(refresh, MenuAsk { action: SceneSwitch::Stay, fetch: true });
    assert_eq!(menu.tab, MenuTab::LeaderboardScreen);
    assert_eq!(menu.ui(Some(MenuButton::Play)), stay());
    let back = menu.ui(Some(MenuButton::Back));
    assert_eq!(back, MenuAsk { action: SceneSwitch::Switch(SceneId::Menu), fetch: false });
}

#[test]
fn the_test_scene_holds_one_enemy() {
    let mut ids = IdAllocator::new();
    let mut scene: TestScene<u8> = TestScene::new();
    assert_eq!(scene.get_scene_name(), "TestScene");
    scene.create_scene(&mut ids, 5, -1);
    let objects = scene.scene.get_entities();
    assert_eq!(objects.len(), 1);
    match &objects[0] {
        Entity::Enemy(e) => {
            assert_eq!((e.id, e.body, e.x_dir, e.destroy), (1, 5, -1, false));
        }
        _ => panic!("expected the enemy"),
    }
}
