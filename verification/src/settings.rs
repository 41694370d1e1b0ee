//! Resolved settings for one UI snapshot.
//!
//! `Config` holds the user-editable file values and their defaults. This
//! module adds application defaults and session overrides, without reading
//! files or knowing about pages. Settings are resolved when configuration
//! changes; components consume these values instead of choosing their own
//! defaults.
use crate::color::{default_theme, Theme};
use crate::icons::{Icons, PillCaps};
use vstd::prelude::*;

verus! {

/// How a page lays out its items.
#[derive(Debug, Clone, Copy, PartialEq, Eq, Structural)]
pub enum UiLayout {
    Grid,
    List,
    Compact,
}

/// Display values of the configuration file.
#[derive(Debug, Clone, Copy, PartialEq, Eq, Structural)]
pub struct UiConfig {
    pub layout: UiLayout,
    pub icons: Icons,
    pub pill_caps: PillCaps,
}

/// Search behaviour chosen in the configuration file.
#[derive(Debug, Clone, Copy, PartialEq, Eq, Structural)]
pub struct SearchConfig {
    pub fuzzy: bool,
    pub prefix: bool,
    pub dictionary: bool,
}

/// The values of the configuration file that settings are resolved from.
#[derive(Debug, Clone, Copy, PartialEq, Eq, Structural)]
pub struct Config {
    pub ui: UiConfig,
    pub search: SearchConfig,
    pub tags_enabled: bool,
}

/// The configuration of an empty file.
pub open spec fn default_config() -> Config {
    Config {
        ui: UiConfig { layout: UiLayout::Grid, icons: Icons::Nerd, pill_caps: PillCaps::Round },
        search: SearchConfig { fuzzy: true, prefix: true, dictionary: true },
        tags_enabled: true,
    }
}

impl Default for SearchConfig {
    fn default() -> (r: SearchConfig)
        ensures
            r == default_config().search,
    {
        SearchConfig { fuzzy: true, prefix: true, dictionary: true }
    }
}

impl Default for UiConfig {
    fn default() -> (r: UiConfig)
        ensures
            r == default_config().ui,
    {
        UiConfig { layout: UiLayout::Grid, icons: Icons::Nerd, pill_caps: PillCaps::Round }
    }
}

impl Default for Config {
    fn default() -> (r: Config)
        ensures
            r == default_config(),
    {
        Config { ui: UiConfig::default(), search: SearchConfig::default(), tags_enabled: true }
    }
}

/// Layout preferences have an explicit scope. Fixed-layout controls such as a
/// selection dialog use a component constraint, rather than changing a page's
/// preference or introducing another session override.
#[derive(Debug, Clone, Copy, PartialEq, Eq, Structural)]
pub enum LayoutScope {
    Library,
    Tags,
    Presets,
    Agents,
    Repositories,
}

impl LayoutScope {
    /// The slot of the scope among the five.
    pub open spec fn slot(self) -> int {
        match self {
            LayoutScope::Library => 0,
            LayoutScope::Tags => 1,
            LayoutScope::Presets => 2,
            LayoutScope::Agents => 3,
            LayoutScope::Repositories => 4,
        }
    }

    /// The slot of the scope among the five.
    pub fn index(self) -> (r: usize)
        ensures
            r == self.slot(),
            r < 5,
    {
        match self {
            LayoutScope::Library => 0,
            LayoutScope::Tags => 1,
            LayoutScope::Presets => 2,
            LayoutScope::Agents => 3,
            LayoutScope::Repositories => 4,
        }
    }
}

/// Distinct scopes have distinct slots.
proof fn lemma_slots_distinct(a: LayoutScope, b: LayoutScope)
    ensures
        a.slot() == b.slot() <==> a == b,
        0 <= a.slot() < 5,
{
}

/// Only user preferences belong here. Queries, cursors and selection state
/// remain with the controls that own them. Nothing in this type is persisted.
#[derive(Debug, Clone, Copy)]
pub struct SessionSettings {
    layouts: [Option<UiLayout>; 5],
}

impl SessionSettings {
    /// The layout chosen in this session for `scope`, if any.
    pub closed spec fn preference(&self, scope: LayoutScope) -> Option<UiLayout> {
        self.layouts@[scope.slot()]
    }

    /// Chooses `layout` for `scope` for the rest of the session.
    pub fn set_layout(&mut self, scope: LayoutScope, layout: UiLayout)
        ensures
            final(self).preference(scope) == Some(layout),
            forall|other: LayoutScope|
                other != scope ==> final(self).preference(other) == old(self).preference(other),
    {
        let i = scope.index();
        self.layouts[i] = Some(layout);
        proof {
            assert forall|other: LayoutScope| other != scope implies final(self).preference(other)
                == old(self).preference(other) by {
                lemma_slots_distinct(other, scope);
            }
        }
    }
}

impl Default for SessionSettings {
    fn default() -> (r: SessionSettings)
        ensures
            forall|scope: LayoutScope| r.preference(scope) is None,
    {
        SessionSettings { layouts: [None, None, None, None, None] }
    }
}

/// Resolved settings shared by every component. Layout intentionally has no
/// field here: `RuntimeSettings::layout_for` is its only read interface.
#[derive(Debug, Clone, Copy, PartialEq, Eq, Structural)]
pub struct UiSettings {
    pub icons: Icons,
    pub pill_caps: PillCaps,
}

/// Shared display geometry. These are application defaults, not file keys.
#[derive(Debug, Clone, Copy, PartialEq, Eq, Structural)]
pub struct LayoutMetrics {
    pub min_card_width: u16,
    pub card_height: u16,
    pub marker_width: usize,
    pub compact_name_width: usize,
    pub pane_breakpoint: u16,
    pub stacked_pane_percent: u16,
    pub stacked_pane_max_height: u16,
    pub narrow_header_width: u16,
    pub compact_header_width: u16,
}

/// The application's display geometry.
pub open spec fn default_layout() -> LayoutMetrics {
    LayoutMetrics {
        min_card_width: 40,
        card_height: 6,
        marker_width: 4,
        compact_name_width: 26,
        pane_breakpoint: 90,
        stacked_pane_percent: 45,
        stacked_pane_max_height: 14,
        narrow_header_width: 70,
        compact_header_width: 90,
    }
}

impl Default for LayoutMetrics {
    fn default() -> (r: LayoutMetrics)
        ensures
            r == default_layout(),
    {
        LayoutMetrics {
            min_card_width: 40,
            card_height: 6,
            marker_width: 4,
            compact_name_width: 26,
            pane_breakpoint: 90,
            stacked_pane_percent: 45,
            stacked_pane_max_height: 14,
            narrow_header_width: 70,
            compact_header_width: 90,
        }
    }
}

/// User-facing timing and navigation policy, with durations in
/// milliseconds. Low-level I/O retry timings stay with the code that
/// performs that I/O.
#[derive(Debug, Clone, Copy, PartialEq, Eq, Structural)]
pub struct InteractionSettings {
    pub wheel_rows: i32,
    pub toast_lifetime_ms: u64,
    pub error_toast_lifetime_ms: u64,
    pub max_visible_toasts: usize,
    pub tick_interval_ms: u64,
    pub root_poll_interval_ms: u64,
}

/// The application's timing and navigation policy.
pub open spec fn default_interaction() -> InteractionSettings {
    InteractionSettings {
        wheel_rows: 3,
        toast_lifetime_ms: 5000,
        error_toast_lifetime_ms: 20000,
        max_visible_toasts: 3,
        tick_interval_ms: 100,
        root_poll_interval_ms: 2000,
    }
}

impl Default for InteractionSettings {
    fn default() -> (r: InteractionSettings)
        ensures
            r == default_interaction(),
    {
        InteractionSettings {
            wheel_rows: 3,
            toast_lifetime_ms: 5000,
            error_toast_lifetime_ms: 20000,
            max_visible_toasts: 3,
            tick_interval_ms: 100,
            root_poll_interval_ms: 2000,
        }
    }
}

/// The scroll of one mouse wheel step, in rows: up is negative.
#[derive(Debug, Clone, Copy, PartialEq, Eq, Structural)]
pub enum WheelKind {
    ScrollUp,
    ScrollDown,
    Other,
}

/// Mouse wheel delta for list navigation.
pub fn wheel(kind: WheelKind, interaction: &InteractionSettings) -> (r: Option<i32>)
    requires
        interaction.wheel_rows > i32::MIN,
    ensures
        r == (match kind {
            WheelKind::ScrollUp => Some((-interaction.wheel_rows) as i32),
            WheelKind::ScrollDown => Some(interaction.wheel_rows),
            WheelKind::Other => None::<i32>,
        }),
{
    match kind {
        WheelKind::ScrollUp => Some(-interaction.wheel_rows),
        WheelKind::ScrollDown => Some(interaction.wheel_rows),
        WheelKind::Other => None,
    }
}

/// Resolved settings: application defaults, file values and session
/// preferences in one snapshot.
#[derive(Debug, Clone, Copy)]
pub struct RuntimeSettings {
    pub theme: Theme,
    pub ui: UiSettings,
    pub search: SearchConfig,
    pub tags_enabled: bool,
    pub layout: LayoutMetrics,
    pub interaction: InteractionSettings,
    /// The layout of each scope, by [`LayoutScope::index`]; read it through
    /// [`RuntimeSettings::layout_for`].
    pub layouts: [UiLayout; 5],
}

impl RuntimeSettings {
    /// The layout resolved for `scope`.
    pub open spec fn spec_layout_for(&self, scope: LayoutScope) -> UiLayout {
        self.layouts@[scope.slot()]
    }

    /// The settings resolved from `config` and the layout `preference` of
    /// each scope: every value the snapshot holds is determined by the two.
    pub open spec fn resolves_with(
        &self,
        config: Config,
        preference: spec_fn(LayoutScope) -> Option<UiLayout>,
    ) -> bool {
        &&& self.theme == default_theme()
        &&& self.ui == UiSettings { icons: config.ui.icons, pill_caps: config.ui.pill_caps }
        &&& self.search == config.search
        &&& self.tags_enabled == config.tags_enabled
        &&& self.layout == default_layout()
        &&& self.interaction == default_interaction()
        &&& forall|scope: LayoutScope| #[trigger]
            self.spec_layout_for(scope) == chosen_layout(config, preference, scope)
    }

    /// The settings resolved from `config` and `session`.
    pub open spec fn resolves(&self, config: Config, session: SessionSettings) -> bool {
        self.resolves_with(config, |scope: LayoutScope| session.preference(scope))
    }

    /// Settings for a fresh session: file values over application defaults.
    pub fn new(config: &Config) -> (r: RuntimeSettings)
        ensures
            r.resolves_with(*config, |scope: LayoutScope| None::<UiLayout>),
    {
        let session = SessionSettings::default();
        let r = Self::resolve(config, &session);
        assert forall|scope: LayoutScope| #[trigger]
            r.spec_layout_for(scope) == chosen_layout(
                *config,
                |scope: LayoutScope| None::<UiLayout>,
                scope,
            ) by {
            assert(r.spec_layout_for(scope) == chosen_layout(
                *config,
                |s: LayoutScope| session.preference(s),
                scope,
            ));
        }
        r
    }

    /// Precedence is application defaults, then file values, then explicit
    /// session preferences. Tags and presets remain workspace data and are not
    /// copied into the settings snapshot.
    pub fn resolve(config: &Config, session: &SessionSettings) -> (r: RuntimeSettings)
        ensures
            r.resolves(*config, *session),
            r.theme == default_theme(),
            r.ui == (UiSettings { icons: config.ui.icons, pill_caps: config.ui.pill_caps }),
            r.search == config.search,
            r.tags_enabled == config.tags_enabled,
            r.layout == default_layout(),
            r.interaction == default_interaction(),
            forall|scope: LayoutScope| #[trigger]
                r.spec_layout_for(scope) == chosen_layout(
                    *config,
                    |s: LayoutScope| session.preference(s),
                    scope,
                ),
    {
        let fallback = config.ui.layout;
        let layouts = [
            pick(session.layouts[0], fallback),
            pick(session.layouts[1], fallback),
            pick(session.layouts[2], fallback),
            pick(session.layouts[3], fallback),
            pick(session.layouts[4], fallback),
        ];
        let r = RuntimeSettings {
            theme: Theme::default(),
            ui: UiSettings { icons: config.ui.icons, pill_caps: config.ui.pill_caps },
            search: config.search,
            tags_enabled: config.tags_enabled,
            layout: LayoutMetrics::default(),
            interaction: InteractionSettings::default(),
            layouts,
        };
        assert forall|scope: LayoutScope| #[trigger]
            r.spec_layout_for(scope) == chosen_layout(
                *config,
                |s: LayoutScope| session.preference(s),
                scope,
            ) by {
            assert(0 <= scope.slot() < 5);
        }
        r
    }

    /// Rebuilds with the latest file values while retaining the session's
    /// preferences. There is no second cache or file-reading path here.
    pub fn reload(&mut self, config: &Config, session: &SessionSettings)
        ensures
            final(self).resolves(*config, *session),
    {
        *self = Self::resolve(config, session);
    }

    /// The layout resolved for `scope`.
    pub fn layout_for(&self, scope: LayoutScope) -> (r: UiLayout)
        ensures
            r == self.spec_layout_for(scope),
    {
        self.layouts[scope.index()]
    }
}

fn pick(preference: Option<UiLayout>, fallback: UiLayout) -> (r: UiLayout)
    ensures
        r == (match preference {
            Some(layout) => layout,
            None => fallback,
        }),
{
    match preference {
        Some(layout) => layout,
        None => fallback,
    }
}

/// A session's preference for `scope` overrides the file's layout there.
pub open spec fn chosen_layout(
    config: Config,
    preference: spec_fn(LayoutScope) -> Option<UiLayout>,
    scope: LayoutScope,
) -> UiLayout {
    match preference(scope) {
        Some(layout) => layout,
        None => config.ui.layout,
    }
}

/// A new session resolves every scope to the file's layout.
pub proof fn law_new_session_uses_file_layout(settings: RuntimeSettings, config: Config)
    requires
        settings.resolves_with(config, |scope: LayoutScope| None::<UiLayout>),
    ensures
        forall|scope: LayoutScope| #[trigger]
            settings.spec_layout_for(scope) == config.ui.layout,
{
    assert forall|scope: LayoutScope| #[trigger]
        settings.spec_layout_for(scope) == config.ui.layout by {
        assert(settings.spec_layout_for(scope) == chosen_layout(
            config,
            |scope: LayoutScope| None::<UiLayout>,
            scope,
        ));
    }
}

/// A session override changes its own scope and no other.
pub proof fn law_override_is_scoped(
    config: Config,
    before: SessionSettings,
    after: SessionSettings,
    scope: LayoutScope,
    layout: UiLayout,
    old_settings: RuntimeSettings,
    new_settings: RuntimeSettings,
)
    requires
        after.preference(scope) == Some(layout),
        forall|other: LayoutScope|
            other != scope ==> after.preference(other) == before.preference(other),
        old_settings.resolves(config, before),
        new_settings.resolves(config, after),
    ensures
        new_settings.spec_layout_for(scope) == layout,
        forall|other: LayoutScope|
            other != scope ==> #[trigger] new_settings.spec_layout_for(other)
                == old_settings.spec_layout_for(other),
{
    assert(new_settings.spec_layout_for(scope) == chosen_layout(
        config,
        |s: LayoutScope| after.preference(s),
        scope,
    ));
    assert forall|other: LayoutScope| other != scope implies #[trigger]
        new_settings.spec_layout_for(other) == old_settings.spec_layout_for(other) by {
        assert(new_settings.spec_layout_for(other) == chosen_layout(
            config,
            |s: LayoutScope| after.preference(s),
            other,
        ));
        assert(old_settings.spec_layout_for(other) == chosen_layout(
            config,
            |s: LayoutScope| before.preference(s),
            other,
        ));
    }
}

/// Reloading a changed file keeps exactly the session's explicit choices:
/// a chosen scope keeps its layout, every other scope takes the new file's
/// layout, and the other file values are the new file's.
pub proof fn law_reload_keeps_explicit_overrides(
    old_config: Config,
    new_config: Config,
    session: SessionSettings,
    old_settings: RuntimeSettings,
    new_settings: RuntimeSettings,
)
    requires
        old_settings.resolves(old_config, session),
        new_settings.resolves(new_config, session),
    ensures
        forall|scope: LayoutScope| #[trigger]
            new_settings.spec_layout_for(scope) == (if session.preference(scope) is Some {
                old_settings.spec_layout_for(scope)
            } else {
                new_config.ui.layout
            }),
        new_settings.ui.icons == new_config.ui.icons,
        new_settings.search == new_config.search,
        new_settings.tags_enabled == new_config.tags_enabled,
{
    assert forall|scope: LayoutScope| #[trigger]
        new_settings.spec_layout_for(scope) == (if session.preference(scope) is Some {
            old_settings.spec_layout_for(scope)
        } else {
            new_config.ui.layout
        }) by {
        assert(new_settings.spec_layout_for(scope) == chosen_layout(
            new_config,
            |s: LayoutScope| session.preference(s),
            scope,
        ));
        assert(old_settings.spec_layout_for(scope) == chosen_layout(
            old_config,
            |s: LayoutScope| session.preference(s),
            scope,
        ));
    }
}

} // verus!
