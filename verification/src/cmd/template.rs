use vstd::prelude::*;

verus! {

/// What the create command was asked to do.
#[derive(Debug)]
pub enum CreateAction {
    /// Create a project of this name.
    Project(String),
    /// Create a variable, in this project.
    Variable(String, String),
    /// Create a template, in this project.
    Template(String, String),
    /// No project was named where one is needed.
    MissingProject,
    /// No template was named where one is needed.
    MissingTemplate,
}

/// The create command: a new project, a variable or a template.
#[derive(Debug)]
pub struct CreateCommandHandler {
    pub project: Option<String>,
    pub template: Option<String>,
    pub variable: Option<String>,
    pub new_project: Option<String>,
}

impl CreateCommandHandler {
    /// What the options ask to create: a new project first, then a
    /// variable, then a template; missing names are reported.
    pub fn action(&self) -> (r: CreateAction)
        ensures
            match self.new_project {
                Some(np) => r matches CreateAction::Project(x) && x@ == np@,
                None => match self.project {
                    None => r is MissingProject,
                    Some(pn) => match self.variable {
                        Some(vn) => r matches CreateAction::Variable(x, y) && x@ == pn@ && y@
                            == vn@,
                        None => match self.template {
                            Some(tn) => r matches CreateAction::Template(x, y) && x@ == pn@ && y@
                                == tn@,
                            None => r is MissingTemplate,
                        },
                    },
                },
            },
    {
        if let Some(np) = &self.new_project {
            return CreateAction::Project(np.clone());
        }
        let pn = match &self.project {
            Some(pn) => pn,
            None => {
                return CreateAction::MissingProject;
            },
        };
        if let Some(vn) = &self.variable {
            return CreateAction::Variable(pn.clone(), vn.clone());
        }
        match &self.template {
            Some(tn) => CreateAction::Template(pn.clone(), tn.clone()),
            None => CreateAction::MissingTemplate,
        }
    }
}

/// What the edit command was asked to do.
#[derive(Debug)]
pub enum EditAction {
    /// Edit a variable of this project.
    Variable(String, String),
    /// Edit a template of this project.
    Template(String, String),
    /// No template was named where one is needed.
    MissingTemplate,
}

/// The edit command: a project's variable, or one of its templates.
#[derive(Debug)]
pub struct EditCommandHandler {
    pub project: String,
    pub template: Option<String>,
    pub variable: Option<String>,
}

impl EditCommandHandler {
    /// What the options ask to edit: a variable when one is named, else
    /// the named template.
    pub fn action(&self) -> (r: EditAction)
        ensures
            match self.variable {
                Some(vn) => r matches EditAction::Variable(x, y) && x@ == self.project@ && y@
                    == vn@,
                None => match self.template {
                    Some(tn) => r matches EditAction::Template(x, y) && x@ == self.project@ && y@
                        == tn@,
                    None => r is MissingTemplate,
                },
            },
    {
        if let Some(vn) = &self.variable {
            return EditAction::Variable(self.project.clone(), vn.clone());
        }
        match &self.template {
            Some(tn) => EditAction::Template(self.project.clone(), tn.clone()),
            None => EditAction::MissingTemplate,
        }
    }
}

/// What the list command was asked to show.
#[derive(Debug)]
pub enum ListAction {
    /// All projects under the root.
    Projects,
    /// The variables of this project.
    Variables(String),
    /// The templates of this project.
    Templates(String),
}

/// The list command: projects, or a project's templates or variables.
#[derive(Debug)]
pub struct ListCommandHandler {
    pub project: Option<String>,
    pub list_variables: bool,
}

impl ListCommandHandler {
    /// What the options ask to list: all projects without a name, else
    /// the named project's variables or templates.
    pub fn action(&self) -> (r: ListAction)
        ensures
            match self.project {
                None => r is Projects,
                Some(pn) => if self.list_variables {
                    r matches ListAction::Variables(x) && x@ == pn@
                } else {
                    r matches ListAction::Templates(x) && x@ == pn@
                },
            },
    {
        match &self.project {
            None => ListAction::Projects,
            Some(pn) => {
                if self.list_variables {
                    ListAction::Variables(pn.clone())
                } else {
                    ListAction::Templates(pn.clone())
                }
            },
        }
    }
}

/// What the delete command was asked to do.
#[derive(Debug)]
pub enum DeleteAction {
    /// Delete this whole project.
    Project(String),
    /// Delete a template of this project.
    Template(String, String),
    /// No template was named where one is needed.
    MissingTemplate,
}

/// The delete command: a whole project, or one of its templates.
#[derive(Debug)]
pub struct DeleteCommandHandler {
    pub project: String,
    pub template: Option<String>,
    pub delete_project: bool,
}

impl DeleteCommandHandler {
    /// What the options ask to delete: the whole project when asked,
    /// else the named template.
    pub fn action(&self) -> (r: DeleteAction)
        ensures
            self.delete_project ==> (r matches DeleteAction::Project(x) && x@ == self.project@),
            !self.delete_project ==> match self.template {
                Some(tn) => r matches DeleteAction::Template(x, y) && x@ == self.project@ && y@
                    == tn@,
                None => r is MissingTemplate,
            },
    {
        if self.delete_project {
            return DeleteAction::Project(self.project.clone());
        }
        match &self.template {
            Some(tn) => DeleteAction::Template(self.project.clone(), tn.clone()),
            None => DeleteAction::MissingTemplate,
        }
    }
}

/// What the rename command was asked to do.
#[derive(Debug)]
pub enum RenameAction {
    /// Rename this project.
    Project(String, String),
    /// Rename a template of this project.
    Template(String, String, String),
    /// No new template name was given where one is needed.
    MissingNewName,
}

/// The rename command: a project, or one of its templates.
#[derive(Debug)]
pub struct RenameCommandHandler {
    pub project: String,
    pub template: String,
    pub new_template: Option<String>,
    pub new_project: Option<String>,
}

impl RenameCommandHandler {
    /// What the options ask to rename: the project when a new project
    /// name is given, else the named template.
    pub fn action(&self) -> (r: RenameAction)
        ensures
            match self.new_project {
                Some(np) => r matches RenameAction::Project(x, y) && x@ == self.project@ && y@
                    == np@,
                None => match self.new_template {
                    Some(nt) => r matches RenameAction::Template(x, y, z) && x@ == self.project@
                        && y@ == self.template@ && z@ == nt@,
                    None => r is MissingNewName,
                },
            },
    {
        if let Some(np) = &self.new_project {
            return RenameAction::Project(self.project.clone(), np.clone());
        }
        match &self.new_template {
            Some(nt) => RenameAction::Template(
                self.project.clone(),
                self.template.clone(),
                nt.clone(),
            ),
            None => RenameAction::MissingNewName,
        }
    }
}

/// What the move command was asked to do: a template taken from one
/// project to another, keeping its name unless a new one is given.
#[derive(Debug)]
pub struct MoveAction {
    pub from: String,
    pub to: String,
    pub template: String,
    pub new_name: String,
}

/// The move command: a template, its source and target projects, and an
/// optional new name.
#[derive(Debug)]
pub struct RelocateCommandHandler {
    pub current_project: String,
    pub new_project: String,
    pub template: String,
    pub new_template: Option<String>,
}

impl RelocateCommandHandler {
    /// The move the options ask for; without a new name the template
    /// keeps its own.
    pub fn action(&self) -> (r: MoveAction)
        ensures
            r.from@ == self.current_project@,
            r.to@ == self.new_project@,
            r.template@ == self.template@,
            match self.new_template {
                Some(nt) => r.new_name@ == nt@,
                None => r.new_name@ == self.template@,
            },
    {
        let new_name = match &self.new_template {
            Some(nt) => nt.clone(),
            None => self.template.clone(),
        };
        MoveAction {
            from: self.current_project.clone(),
            to: self.new_project.clone(),
            template: self.template.clone(),
            new_name,
        }
    }
}

/// The template subcommands, one handler each.
#[derive(Debug)]
pub enum TemplateCommands {
    Create(CreateCommandHandler),
    Edit(EditCommandHandler),
    List(ListCommandHandler),
    Delete(DeleteCommandHandler),
    Rename(RenameCommandHandler),
    Move(RelocateCommandHandler),
}

/// The template command: one of the subcommands above.
#[derive(Debug)]
pub struct TemplateCommandHandler {
    pub command: TemplateCommands,
}

} // verus!
