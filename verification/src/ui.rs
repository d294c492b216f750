//! The settings panels: which of them are open, and the names they show.

use vstd::prelude::*;

verus! {

/// The panel of the gravitating body's settings.
pub struct BlackHoleSettings {
    visible: bool,
}

impl BlackHoleSettings {
    /// The panel is open.
    pub closed spec fn visible(&self) -> bool {
        self.visible
    }

    /// A closed panel.
    pub fn new() -> (panel: Self)
        ensures
            !panel.visible(),
    {
        Self { visible: false }
    }

    /// Opens the panel.
    pub fn show(&mut self)
        ensures
            final(self).visible(),
    {
        self.visible = true;
    }

    /// Tells whether the panel is open.
    pub fn is_visible(&self) -> (open: bool)
        ensures
            open == self.visible(),
    {
        self.visible
    }

    /// Opens or closes the panel.
    pub fn set_visible(&mut self, open: bool)
        ensures
            final(self).visible() == open,
    {
        self.visible = open;
    }
}

impl Default for BlackHoleSettings {
    fn default() -> (panel: Self)
        ensures
            !panel.visible(),
    {
        Self::new()
    }
}

/// The panel of the camera's settings.
pub struct CameraSettings {
    visible: bool,
}

impl CameraSettings {
    /// The panel is open.
    pub closed spec fn visible(&self) -> bool {
        self.visible
    }

    /// A closed panel.
    pub fn new() -> (panel: Self)
        ensures
            !panel.visible(),
    {
        Self { visible: false }
    }

    /// Opens the panel.
    pub fn show(&mut self)
        ensures
            final(self).visible(),
    {
        self.visible = true;
    }

    /// Tells whether the panel is open.
    pub fn is_visible(&self) -> (open: bool)
        ensures
            open == self.visible(),
    {
        self.visible
    }

    /// Opens or closes the panel.
    pub fn set_visible(&mut self, open: bool)
        ensures
            final(self).visible() == open,
    {
        self.visible = open;
    }
}

impl Default for CameraSettings {
    fn default() -> (panel: Self)
        ensures
            !panel.visible(),
    {
        Self::new()
    }
}

/// The panel of the models' settings.
pub struct ModelSettings {
    visible: bool,
}

impl ModelSettings {
    /// The panel is open.
    pub closed spec fn visible(&self) -> bool {
        self.visible
    }

    /// A closed panel.
    pub fn new() -> (panel: Self)
        ensures
            !panel.visible(),
    {
        Self { visible: false }
    }

    /// Opens the panel.
    pub fn show(&mut self)
        ensures
            final(self).visible(),
    {
        self.visible = true;
    }

    /// Tells whether the panel is open.
    pub fn is_visible(&self) -> (open: bool)
        ensures
            open == self.visible(),
    {
        self.visible
    }

    /// Opens or closes the panel.
    pub fn set_visible(&mut self, open: bool)
        ensures
            final(self).visible() == open,
    {
        self.visible = open;
    }
}

impl Default for ModelSettings {
    fn default() -> (panel: Self)
        ensures
            !panel.visible(),
    {
        Self::new()
    }
}

/// The panel of the renderer's settings.
pub struct RendererSettings {
    visible: bool,
}

impl RendererSettings {
    /// The panel is open.
    pub closed spec fn visible(&self) -> bool {
        self.visible
    }

    /// A closed panel.
    pub fn new() -> (panel: Self)
        ensures
            !panel.visible(),
    {
        Self { visible: false }
    }

    /// Opens the panel.
    pub fn show(&mut self)
        ensures
            final(self).visible(),
    {
        self.visible = true;
    }

    /// Tells whether the panel is open.
    pub fn is_visible(&self) -> (open: bool)
        ensures
            open == self.visible(),
    {
        self.visible
    }

    /// Opens or closes the panel.
    pub fn set_visible(&mut self, open: bool)
        ensures
            final(self).visible() == open,
    {
        self.visible = open;
    }
}

impl Default for RendererSettings {
    fn default() -> (panel: Self)
        ensures
            !panel.visible(),
    {
        Self::new()
    }
}

/// The name of an integration method as the panel shows it: the methods 0
/// and 1 have names, any other number shows as nothing.
pub open spec fn method_text(method: i32) -> Seq<char> {
    if method == 0 {
        "Euler"@
    } else if method == 1 {
        "Runge Kutta"@
    } else {
        ""@
    }
}

/// Names an integration method.
pub fn integration_method_label(method: i32) -> (name: String)
    ensures
        name@ == method_text(method),
{
    if method == 0 {
        "Euler".to_owned()
    } else if method == 1 {
        "Runge Kutta".to_owned()
    } else {
        "".to_owned()
    }
}

} // verus!
